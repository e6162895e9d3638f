//! What the command-line tool shows of API responses: one tab-separated line
//! per service record, a block per host, lines per domain record, and the
//! account and honeypot summaries.
use vstd::prelude::*;
use crate::ip_check::{ip_address_valid, ip_check_panics, ip_check_panics_exec, ip_is_valid};
use crate::json::{lemma_view_entries, view_values, entries_lookup, lemma_view_values, opt_get, opt_view, str_or, to_json_string, view_entries, json_text, Json, JsonValue};
use crate::models::{bold_painted, error_line, info_line, warning_line, paint_bold, success_line, Colour, Output};
use crate::regex_ops::{regex_find, regex_first_match, regex_is_valid, regex_valid};
use crate::text::{pad_left, pad_left_exec, replace_all, replaced, append_str, chars_of, int_text, nat_text, push_char, str_eq, u64_text, i64_text};

verus! {

// ---------------------------------------------------------------------
// Sanitizing
// ---------------------------------------------------------------------

/// The characters that `sanitize` removes: quotes, tabs and line breaks.
pub open spec fn is_stripped(c: char) -> bool {
    c == '"' || c == '\t' || c == '\n' || c == '\r'
}

/// `s` without quotes, tabs and line breaks.
pub open spec fn sanitized(s: Seq<char>) -> Seq<char> {
    s.filter(|c: char| !is_stripped(c))
}

/// Removes quotes, tabs and line breaks from a text.
pub fn sanitize(s: &str) -> (r: String)
    ensures
        r@ == sanitized(s@),
{
    let v = chars_of(s);
    let mut r = String::new();
    let mut i: usize = 0;
    while i < v.len()
        invariant
            v@ == s@,
            i <= v@.len(),
            r@ == sanitized(v@.subrange(0, i as int)),
        decreases v.len() - i,
    {
        let c = v[i];
        proof {
            assert(v@.subrange(0, i + 1) =~= v@.subrange(0, i as int).push(c));
            v@.subrange(0, i as int).lemma_filter_push(c, |c: char| !is_stripped(c));
        }
        if !(c == '"' || c == '\t' || c == '\n' || c == '\r') {
            push_char(&mut r, c);
        }
        i = i + 1;
    }
    assert(v@.subrange(0, v@.len() as int) =~= s@);
    r
}

/// `s` without its double quotes.
pub open spec fn unquoted(s: Seq<char>) -> Seq<char> {
    s.filter(|c: char| c != '"')
}

/// Removes the double quotes from a text.
pub fn remove_quotes(s: &str) -> (r: String)
    ensures
        r@ == unquoted(s@),
{
    let v = chars_of(s);
    let mut r = String::new();
    let mut i: usize = 0;
    while i < v.len()
        invariant
            v@ == s@,
            i <= v@.len(),
            r@ == unquoted(v@.subrange(0, i as int)),
        decreases v.len() - i,
    {
        let c = v[i];
        proof {
            assert(v@.subrange(0, i + 1) =~= v@.subrange(0, i as int).push(c));
            v@.subrange(0, i as int).lemma_filter_push(c, |c: char| c != '"');
        }
        if c != '"' {
            push_char(&mut r, c);
        }
        i = i + 1;
    }
    assert(v@.subrange(0, v@.len() as int) =~= s@);
    r
}

/// Filtering a sequence whose elements all pass keeps it whole.
proof fn lemma_filter_all<A>(s: Seq<A>, p: spec_fn(A) -> bool)
    requires
        forall|i: int| 0 <= i < s.len() ==> p(#[trigger] s[i]),
    ensures
        s.filter(p) == s,
    decreases s.len(),
{
    reveal(Seq::filter);
    if s.len() > 0 {
        lemma_filter_all(s.drop_last(), p);
        assert(s.drop_last().push(s.last()) =~= s);
    }
}

/// Sanitized text holds no quote, tab or line break, and sanitizing it
/// again changes nothing.
pub proof fn lemma_sanitize_clean(s: Seq<char>)
    ensures
        forall|i: int| 0 <= i < sanitized(s).len() ==> !is_stripped(#[trigger] sanitized(s)[i]),
        sanitized(sanitized(s)) == sanitized(s),
{
    let p = |c: char| !is_stripped(c);
    assert forall|i: int| 0 <= i < sanitized(s).len() implies !is_stripped(
        #[trigger] sanitized(s)[i],
    ) by {
        s.lemma_filter_pred(p, i);
    }
    lemma_filter_all(sanitized(s), p);
}

/// Text without its quotes holds none, and removing them again changes
/// nothing.
pub proof fn lemma_unquoted_clean(s: Seq<char>)
    ensures
        forall|i: int| 0 <= i < unquoted(s).len() ==> #[trigger] unquoted(s)[i] != '"',
        unquoted(unquoted(s)) == unquoted(s),
{
    let p = |c: char| c != '"';
    assert forall|i: int| 0 <= i < unquoted(s).len() implies #[trigger] unquoted(s)[i] != '"' by {
        s.lemma_filter_pred(p, i);
    }
    lemma_filter_all(unquoted(s), p);
}

// ---------------------------------------------------------------------
// Reading a service record
// ---------------------------------------------------------------------

/// The first element of an optional array.
pub open spec fn first_item(o: Option<Json>) -> Option<Json> {
    match o {
        Some(Json::Array(items)) => if items.len() > 0 {
            Some(items[0])
        } else {
            None
        },
        _ => None,
    }
}

/// The string at the start of an optional array.
pub open spec fn first_str(o: Option<Json>) -> Option<Seq<char>> {
    match first_item(o) {
        Some(Json::Str(s)) => Some(s),
        _ => None,
    }
}

/// The common name of the certificate under
/// `service.tls.server_certificates.certificate.parsed.subject`.
pub open spec fn direct_cert_name(obj: Json) -> Option<Seq<char>> {
    first_str(
        opt_get(
            opt_get(
                opt_get(
                    opt_get(opt_get(opt_get(obj.get("service"@), "tls"@), "server_certificates"@), "certificate"@),
                    "parsed"@,
                ),
                "subject"@,
            ),
            "common_name"@,
        ),
    )
}

/// The common name of the certificate under
/// `service.tls.handshake_log.server_certificates.certificate.parsed.subject`.
pub open spec fn handshake_cert_name(obj: Json) -> Option<Seq<char>> {
    first_str(
        opt_get(
            opt_get(
                opt_get(
                    opt_get(
                        opt_get(
                            opt_get(opt_get(obj.get("service"@), "tls"@), "handshake_log"@),
                            "server_certificates"@,
                        ),
                        "certificate"@,
                    ),
                    "parsed"@,
                ),
                "subject"@,
            ),
            "common_name"@,
        ),
    )
}

/// The domain of a record's TLS certificate: the direct one, else the one
/// of the handshake log, else empty.
pub open spec fn ssl_name(obj: Json) -> Seq<char> {
    match direct_cert_name(obj) {
        Some(s) => s,
        None => match handshake_cert_name(obj) {
            Some(s) => s,
            None => Seq::empty(),
        },
    }
}

/// The fields of a service record.
pub struct Record {
    pub ip: String,
    pub port: String,
    pub title: String,
    pub product_name_cn: String,
    pub version: String,
    pub protocol: String,
    pub country: String,
    pub province: String,
    pub city: String,
    pub owner: String,
    pub time: String,
    pub domain: String,
    pub ssl: String,
}

/// The fields of a service record, as texts.
pub struct RecordView {
    pub ip: Seq<char>,
    pub port: Seq<char>,
    pub title: Seq<char>,
    pub product_name_cn: Seq<char>,
    pub version: Seq<char>,
    pub protocol: Seq<char>,
    pub country: Seq<char>,
    pub province: Seq<char>,
    pub city: Seq<char>,
    pub owner: Seq<char>,
    pub time: Seq<char>,
    pub domain: Seq<char>,
    pub ssl: Seq<char>,
}

impl View for Record {
    type V = RecordView;

    open spec fn view(&self) -> RecordView {
        RecordView {
            ip: self.ip@,
            port: self.port@,
            title: self.title@,
            product_name_cn: self.product_name_cn@,
            version: self.version@,
            protocol: self.protocol@,
            country: self.country@,
            province: self.province@,
            city: self.city@,
            owner: self.owner@,
            time: self.time@,
            domain: self.domain@,
            ssl: self.ssl@,
        }
    }
}

/// The record read from a service object: address, port (as JSON text),
/// page title, product and version of the first component, protocol,
/// location, time, HTTP host and certificate name. Missing or mistyped
/// fields read as empty; the address, title, product, version, protocol and
/// host are sanitized.
pub open spec fn record_of(e: Seq<(Seq<char>, Json)>) -> RecordView {
    let obj = Json::Object(e);
    let service = obj.get("service"@);
    let http = opt_get(service, "http"@);
    let location = obj.get("location"@);
    let component = first_item(obj.get("components"@));
    RecordView {
        ip: sanitized(str_or(obj.get("ip"@), Seq::empty())),
        port: match obj.get("port"@) {
            Some(p) => json_text(p),
            None => Seq::empty(),
        },
        title: sanitized(str_or(opt_get(http, "title"@), Seq::empty())),
        product_name_cn: sanitized(str_or(opt_get(component, "product_name_cn"@), Seq::empty())),
        version: sanitized(str_or(opt_get(component, "version"@), Seq::empty())),
        protocol: sanitized(str_or(opt_get(service, "name"@), Seq::empty())),
        country: str_or(opt_get(location, "country_cn"@), Seq::empty()),
        province: str_or(opt_get(location, "province_cn"@), Seq::empty()),
        city: str_or(opt_get(location, "city_cn"@), Seq::empty()),
        owner: str_or(opt_get(location, "owner"@), Seq::empty()),
        time: str_or(obj.get("time"@), Seq::empty()),
        domain: sanitized(str_or(opt_get(http, "host"@), Seq::empty())),
        ssl: ssl_name(obj),
    }
}

/// `and_then(|v| v.get(key))` on an optional value.
pub fn get_in<'a>(o: Option<&'a JsonValue>, key: &str) -> (r: Option<&'a JsonValue>)
    ensures
        opt_view(r) == opt_get(opt_view(o), key@),
{
    match o {
        Some(v) => v.get(key),
        None => None,
    }
}

/// The string held by an optional value, or the empty string.
pub fn str_or_empty(o: Option<&JsonValue>) -> (r: String)
    ensures
        r@ == str_or(opt_view(o), Seq::empty()),
{
    match o {
        Some(v) => match v.as_str() {
            Some(s) => s.clone(),
            None => String::new(),
        },
        None => String::new(),
    }
}

/// The first element of an optional array.
pub fn first_item_in<'a>(o: Option<&'a JsonValue>) -> (r: Option<&'a JsonValue>)
    ensures
        opt_view(r) == first_item(opt_view(o)),
{
    match o {
        Some(v) => match v.as_array() {
            Some(items) => {
                proof {
                    lemma_view_values(items@);
                }
                if items.len() > 0 {
                    Some(&items[0])
                } else {
                    None
                }
            },
            None => None,
        },
        None => None,
    }
}

/// The string at the start of an optional array.
pub fn first_str_in(o: Option<&JsonValue>) -> (r: Option<String>)
    ensures
        crate::regex_ops::opt_string_view(r) == first_str(opt_view(o)),
{
    match first_item_in(o) {
        Some(v) => match v.as_str() {
            Some(s) => Some(s.clone()),
            None => None,
        },
        None => None,
    }
}

impl Record {
    /// Reads a record from a service object.
    pub fn from_value(data_value: &Vec<(String, JsonValue)>) -> (r: Record)
        ensures
            r@ == record_of(view_entries(data_value@)),
    {
        let ghost obj = Json::Object(view_entries(data_value@));
        let component = first_item_in(entries_lookup(data_value, "components"));
        let product_name_cn = str_or_empty(get_in(component, "product_name_cn"));
        let version = str_or_empty(get_in(component, "version"));
        let service = entries_lookup(data_value, "service");
        let http = get_in(service, "http");
        let title = str_or_empty(get_in(http, "title"));
        let domain = str_or_empty(get_in(http, "host"));
        let protocol = str_or_empty(get_in(service, "name"));
        let ip = str_or_empty(entries_lookup(data_value, "ip"));
        let port = match entries_lookup(data_value, "port") {
            Some(p) => to_json_string(p),
            None => String::new(),
        };
        let location = entries_lookup(data_value, "location");
        let country = str_or_empty(get_in(location, "country_cn"));
        let province = str_or_empty(get_in(location, "province_cn"));
        let city = str_or_empty(get_in(location, "city_cn"));
        let owner = str_or_empty(get_in(location, "owner"));
        let time = str_or_empty(entries_lookup(data_value, "time"));
        let ssl = Self::extract_ssl(data_value);
        Record {
            ip: sanitize(ip.as_str()),
            port,
            title: sanitize(title.as_str()),
            product_name_cn: sanitize(product_name_cn.as_str()),
            version: sanitize(version.as_str()),
            protocol: sanitize(protocol.as_str()),
            country,
            province,
            city,
            owner,
            time,
            domain: sanitize(domain.as_str()),
            ssl,
        }
    }

    /// The domain of the record's TLS certificate.
    pub fn extract_ssl(data_value: &Vec<(String, JsonValue)>) -> (r: String)
        ensures
            r@ == ssl_name(Json::Object(view_entries(data_value@))),
    {
        let service = entries_lookup(data_value, "service");
        let tls = get_in(service, "tls");
        let direct = first_str_in(
            get_in(
                get_in(get_in(get_in(get_in(tls, "server_certificates"), "certificate"), "parsed"), "subject"),
                "common_name",
            ),
        );
        match direct {
            Some(s) => s,
            None => {
                let via_log = first_str_in(
                    get_in(
                        get_in(
                            get_in(
                                get_in(get_in(get_in(tls, "handshake_log"), "server_certificates"), "certificate"),
                                "parsed",
                            ),
                            "subject",
                        ),
                        "common_name",
                    ),
                );
                match via_log {
                    Some(s) => s,
                    None => String::new(),
                }
            },
        }
    }
}


/// The value of a named field of a record (`ssldomain` names the
/// certificate domain); empty for any other name, `domain` included.
pub open spec fn field_of(rec: RecordView, field: Seq<char>) -> Seq<char> {
    if field == "ip"@ {
        rec.ip
    } else if field == "port"@ {
        rec.port
    } else if field == "title"@ {
        rec.title
    } else if field == "product_name_cn"@ {
        rec.product_name_cn
    } else if field == "version"@ {
        rec.version
    } else if field == "protocol"@ {
        rec.protocol
    } else if field == "country"@ {
        rec.country
    } else if field == "province"@ {
        rec.province
    } else if field == "city"@ {
        rec.city
    } else if field == "owner"@ {
        rec.owner
    } else if field == "time"@ {
        rec.time
    } else if field == "ssldomain"@ {
        rec.ssl
    } else {
        Seq::empty()
    }
}

/// The HTTP host shown for the `domain` field: the host, unless it is an IP
/// address.
pub open spec fn domain_shown(rec: RecordView) -> Seq<char> {
    if !ip_address_valid(rec.domain) {
        rec.domain
    } else {
        Seq::empty()
    }
}

/// The text shown for one field of a record.
pub open spec fn field_value(rec: RecordView, field: Seq<char>) -> Seq<char> {
    if field == "domain"@ {
        domain_shown(rec)
    } else {
        field_of(rec, field)
    }
}

/// The fields of a record in the order asked for, each followed by a tab.
pub open spec fn fields_text(rec: RecordView, fields: Seq<Seq<char>>) -> Seq<char>
    decreases fields.len(),
{
    if fields.len() == 0 {
        Seq::empty()
    } else {
        fields_text(rec, fields.drop_last()) + field_value(rec, fields.last()) + seq!['\t']
    }
}

/// The field names given as string slices.
pub open spec fn names_view(names: Seq<&str>) -> Seq<Seq<char>> {
    names.map_values(|n: &str| n@)
}

/// Whether showing the fields can check the record's host for being an IP
/// address without the address check panicking.
pub open spec fn domain_check_safe(rec: RecordView, fields: Seq<Seq<char>>) -> bool {
    fields.contains("domain"@) ==> !ip_check_panics(rec.domain)
}

/// The text that the regular-expression filter is matched against: the
/// certificate, the raw response, the HTTP body and the HTTP headers of the
/// record, one after the other; empty when there is no filter.
pub open spec fn filter_text_of(e: Seq<(Seq<char>, Json)>, filter: Seq<char>) -> Seq<char> {
    if filter.len() == 0 {
        Seq::empty()
    } else {
        let service = Json::Object(e).get("service"@);
        let http = opt_get(service, "http"@);
        str_or(opt_get(service, "cert"@), Seq::empty()) + str_or(
            opt_get(service, "response"@),
            Seq::empty(),
        ) + str_or(opt_get(http, "body"@), Seq::empty()) + str_or(
            opt_get(http, "response_headers"@),
            Seq::empty(),
        )
    }
}

impl Record {
    /// The value of a named field (see `field_of`).
    pub fn get_field(&self, field: &str) -> (r: &str)
        ensures
            r@ == field_of(self@, field@),
    {
        if str_eq(field, "ip") {
            self.ip.as_str()
        } else if str_eq(field, "port") {
            self.port.as_str()
        } else if str_eq(field, "title") {
            self.title.as_str()
        } else if str_eq(field, "product_name_cn") {
            self.product_name_cn.as_str()
        } else if str_eq(field, "version") {
            self.version.as_str()
        } else if str_eq(field, "protocol") {
            self.protocol.as_str()
        } else if str_eq(field, "country") {
            self.country.as_str()
        } else if str_eq(field, "province") {
            self.province.as_str()
        } else if str_eq(field, "city") {
            self.city.as_str()
        } else if str_eq(field, "owner") {
            self.owner.as_str()
        } else if str_eq(field, "time") {
            self.time.as_str()
        } else if str_eq(field, "ssldomain") {
            self.ssl.as_str()
        } else {
            proof {
                reveal_strlit("");
            }
            ""
        }
    }

    /// The HTTP host when `field` is `domain` and the host is no IP address;
    /// empty otherwise.
    pub fn get_domain(&self, field: &str) -> (r: &str)
        requires
            field@ == "domain"@ ==> !ip_check_panics(self.domain@),
        ensures
            r@ == (if field@ == "domain"@ {
                domain_shown(self@)
            } else {
                Seq::empty()
            }),
    {
        if str_eq(field, "domain") && !ip_is_valid(self.domain.as_str()) {
            self.domain.as_str()
        } else {
            proof {
                reveal_strlit("");
            }
            ""
        }
    }

    /// The fields named in `data_type`, each followed by a tab.
    pub fn format_fields(&self, data_type: &[&str]) -> (r: String)
        requires
            domain_check_safe(self@, names_view(data_type@)),
        ensures
            r@ == fields_text(self@, names_view(data_type@)),
    {
        let mut f = String::new();
        let mut i: usize = 0;
        while i < data_type.len()
            invariant
                i <= data_type@.len(),
                domain_check_safe(self@, names_view(data_type@)),
                f@ == fields_text(self@, names_view(data_type@).subrange(0, i as int)),
            decreases data_type.len() - i,
        {
            let data: &str = data_type[i];
            proof {
                let names = names_view(data_type@);
                assert(names[i as int] == data@);
                assert(names.subrange(0, i + 1).drop_last() =~= names.subrange(0, i as int));
                if data@ == "domain"@ {
                    assert(names.contains("domain"@));
                }
            }
            let value = if str_eq(data, "domain") {
                self.get_domain(data)
            } else {
                self.get_field(data)
            };
            append_str(&mut f, value);
            push_char(&mut f, '\t');
            i = i + 1;
        }
        assert(names_view(data_type@).subrange(0, data_type@.len() as int) =~= names_view(
            data_type@,
        ));
        f
    }

    /// The text that the filter is matched against (see `filter_text_of`).
    pub fn filter_text(&self, data_value: &Vec<(String, JsonValue)>, filter: &str) -> (r: String)
        ensures
            r@ == filter_text_of(view_entries(data_value@), filter@),
    {
        if filter.unicode_len() == 0 {
            return String::new();
        }
        let service = entries_lookup(data_value, "service");
        let http = get_in(service, "http");
        let cert = str_or_empty(get_in(service, "cert"));
        let response = str_or_empty(get_in(service, "response"));
        let http_body = str_or_empty(get_in(http, "body"));
        let http_header = str_or_empty(get_in(http, "response_headers"));
        let mut text = String::new();
        append_str(&mut text, cert.as_str());
        append_str(&mut text, response.as_str());
        append_str(&mut text, http_body.as_str());
        append_str(&mut text, http_header.as_str());
        assert(text@ =~= filter_text_of(view_entries(data_value@), filter@));
        text
    }
}


// ---------------------------------------------------------------------
// Service search results
// ---------------------------------------------------------------------

/// What a display function hands back: the lines it produced, and the text
/// that the tool prints to the terminal for them.
pub struct Rendered {
    pub results: Vec<String>,
    pub printed: String,
}

/// The texts of a list of strings.
pub open spec fn strings_view(v: Seq<String>) -> Seq<Seq<char>> {
    v.map_values(|s: String| s@)
}

/// The objects referred to by a list of references.
pub open spec fn objects_view(v: Seq<&Vec<(String, JsonValue)>>) -> Seq<Seq<(Seq<char>, Json)>> {
    v.map_values(|e: &Vec<(String, JsonValue)>| view_entries(e@))
}

/// The texts of a list, one after the other.
pub open spec fn concat_all(s: Seq<Seq<char>>) -> Seq<char>
    decreases s.len(),
{
    if s.len() == 0 {
        Seq::empty()
    } else {
        concat_all(s.drop_last()) + s.last()
    }
}

/// The first match of the filter in a text, or the empty text.
pub open spec fn match_text(filter: Seq<char>, text: Seq<char>) -> Seq<char> {
    match regex_first_match(filter, text) {
        Some(m) => m,
        None => Seq::empty(),
    }
}

/// The filter's match in a record.
pub open spec fn record_match(e: Seq<(Seq<char>, Json)>, filter: Seq<char>) -> Seq<char> {
    match_text(filter, filter_text_of(e, filter))
}

/// The line kept for a record: its fields, followed by the filter's match
/// when the lines are not printed.
pub open spec fn result_line(
    e: Seq<(Seq<char>, Json)>,
    showdata: bool,
    filter: Seq<char>,
    fields: Seq<Seq<char>>,
) -> Seq<char> {
    if showdata {
        fields_text(record_of(e), fields)
    } else {
        fields_text(record_of(e), fields) + record_match(e, filter)
    }
}

/// The text printed for a record: its fields, the filter's match in bold
/// red, and a line break.
pub open spec fn printed_line(
    e: Seq<(Seq<char>, Json)>,
    filter: Seq<char>,
    fields: Seq<Seq<char>>,
) -> Seq<char> {
    fields_text(record_of(e), fields) + bold_painted(Colour::Red, record_match(e, filter)) + seq![
        '\n',
    ]
}

/// Whether showing the fields of every record is free of a panicking
/// address check.
pub open spec fn records_safe(items: Seq<Seq<(Seq<char>, Json)>>, fields: Seq<Seq<char>>) -> bool {
    forall|i: int| 0 <= i < items.len() ==> domain_check_safe(record_of(#[trigger] items[i]), fields)
}

/// The lines and printed text of a list of service records.
pub open spec fn results_ok(
    r: Rendered,
    items: Seq<Seq<(Seq<char>, Json)>>,
    showdata: bool,
    filter: Seq<char>,
    fields: Seq<Seq<char>>,
    header: Seq<char>,
) -> bool {
    &&& strings_view(r.results@) == items.map_values(
        |e: Seq<(Seq<char>, Json)>| result_line(e, showdata, filter, fields),
    )
    &&& r.printed@ == header + if showdata {
        concat_all(items.map_values(|e: Seq<(Seq<char>, Json)>| printed_line(e, filter, fields)))
    } else {
        Seq::empty()
    }
}

/// Formats service records: one line per record with the fields asked for,
/// each followed by a tab, and the first match of the regular expression
/// `filter` in the record's certificate, response, body and headers. When
/// `showdata` holds the lines are printed, the match in bold red; otherwise
/// the match ends the line kept. The expression is compiled before any
/// record is read.
pub fn show_results(
    items: &Vec<&Vec<(String, JsonValue)>>,
    showdata: bool,
    filter: &str,
    data_type: &[&str],
) -> (r: Rendered)
    requires
        regex_valid(filter@),
        records_safe(objects_view(items@), names_view(data_type@)),
    ensures
        results_ok(
            r,
            objects_view(items@),
            showdata,
            filter@,
            names_view(data_type@),
            Seq::empty(),
        ),
{
    let ghost objs = objects_view(items@);
    let ghost fields = names_view(data_type@);
    let ghost lines = objs.map_values(
        |e: Seq<(Seq<char>, Json)>| result_line(e, showdata, filter@, fields),
    );
    let ghost printed = objs.map_values(
        |e: Seq<(Seq<char>, Json)>| printed_line(e, filter@, fields),
    );
    let mut res: Vec<String> = Vec::new();
    let mut out = String::new();
    let mut i: usize = 0;
    while i < items.len()
        invariant
            objs == objects_view(items@),
            fields == names_view(data_type@),
            lines == objs.map_values(
                |e: Seq<(Seq<char>, Json)>| result_line(e, showdata, filter@, fields),
            ),
            printed == objs.map_values(|e: Seq<(Seq<char>, Json)>| printed_line(e, filter@, fields)),
            regex_valid(filter@),
            records_safe(objs, fields),
            i <= items@.len(),
            strings_view(res@) == lines.subrange(0, i as int),
            out@ == if showdata {
                concat_all(printed.subrange(0, i as int))
            } else {
                Seq::empty()
            },
        decreases items.len() - i,
    {
        let data_value: &Vec<(String, JsonValue)> = items[i];
        assert(objs[i as int] == view_entries(data_value@));
        let record = Record::from_value(data_value);
        assert(domain_check_safe(record_of(objs[i as int]), fields));
        let mut f = record.format_fields(data_type);
        let regex_text = record.filter_text(data_value, filter);
        let regex_res = match regex_find(filter, regex_text.as_str()) {
            Some(m) => m,
            None => String::new(),
        };
        assert(regex_res@ == record_match(objs[i as int], filter@));
        if showdata {
            let ghost before = out@;
            append_str(&mut out, f.as_str());
            let painted = paint_bold(Colour::Red, regex_res.as_str());
            append_str(&mut out, painted.as_str());
            push_char(&mut out, '\n');
            proof {
                assert(printed.subrange(0, i + 1).drop_last() =~= printed.subrange(0, i as int));
                assert(out@ =~= before + printed[i as int]);
            }
        } else {
            append_str(&mut f, regex_res.as_str());
        }
        assert(f@ == lines[i as int]);
        let ghost prev = res@;
        let ghost fv = f@;
        assert(objs.len() == items@.len());
        assert(lines.len() == objs.len());
        assert(strings_view(prev).len() == prev.len());
        assert(prev.len() == i);
        res.push(f);
        proof {
            assert(res@.len() == i + 1);
            assert forall|k: int| 0 <= k < i + 1 implies #[trigger] strings_view(res@)[k]
                == lines.subrange(0, i + 1)[k] by {
                if k < i {
                    assert(res@[k] == prev[k]);
                    assert(strings_view(prev)[k] == prev[k]@);
                } else {
                    assert(res@[k]@ == fv);
                }
            }
            assert(strings_view(res@) =~= lines.subrange(0, i + 1));
        }
        i = i + 1;
    }
    proof {
        assert(lines.subrange(0, items@.len() as int) =~= lines);
        assert(printed.subrange(0, items@.len() as int) =~= printed);
        assert(out@ =~= Seq::<char>::empty() + out@);
    }
    Rendered { results: res, printed: out }
}

/// An optional integer that fits in `i64`.
pub open spec fn opt_i64(o: Option<Json>) -> Option<i64> {
    match o {
        Some(j) => j.as_i64(),
        None => None,
    }
}

/// `value["meta"]["pagination"][key].as_i64()`.
pub open spec fn pagination_field(v: Json, key: Seq<char>) -> Option<i64> {
    opt_i64(opt_get(opt_get(v.get("meta"@), "pagination"@), key))
}

/// The elements of `value["data"]`, none when it is no array.
pub open spec fn data_items(v: Json) -> Seq<Json> {
    match v.get("data"@) {
        Some(Json::Array(items)) => items,
        _ => Seq::empty(),
    }
}

/// Picks the object out of a value.
pub open spec fn object_pick() -> spec_fn(Json) -> Option<Seq<(Seq<char>, Json)>> {
    |j: Json| j.as_object()
}

/// The objects among the first `limit` elements.
pub open spec fn objects_among(items: Seq<Json>, limit: int) -> Seq<Seq<(Seq<char>, Json)>> {
    items.take(if limit < items.len() {
        limit
    } else {
        items.len() as int
    }).filter_map(object_pick())
}

/// The two lines printed before a page of results.
pub open spec fn count_header(count: usize, total: i32) -> Seq<char> {
    success_line("Successful."@) + seq!['\n'] + success_line(
        "count: "@ + nat_text(count as nat) + " \ttotal: "@ + int_text(total as int),
    ) + seq!['\n']
}

/// Whether a response carries the integer count and total of its page.
pub open spec fn has_pagination(v: Json) -> bool {
    pagination_field(v, "count"@) is Some && pagination_field(v, "total"@) is Some
}

/// The count of a page as the tool reads it (`as usize`).
pub open spec fn page_count(v: Json) -> usize {
    pagination_field(v, "count"@)->Some_0 as usize
}

/// The total of a search as the tool reads it (`as i32`).
pub open spec fn page_total(v: Json) -> i32 {
    pagination_field(v, "total"@)->Some_0 as i32
}

/// The lines printed before a page: success, then its count and total.
pub fn count_header_exec(count: usize, total: i32) -> (r: String)
    ensures
        r@ == count_header(count, total),
{
    let mut r = Output::success("Successful.");
    push_char(&mut r, '\n');
    let mut msg = String::new();
    append_str(&mut msg, "count: ");
    let c = u64_text(count as u64);
    append_str(&mut msg, c.as_str());
    append_str(&mut msg, " \ttotal: ");
    let t = i64_text(total as i64);
    append_str(&mut msg, t.as_str());
    let line = Output::success(msg.as_str());
    append_str(&mut r, line.as_str());
    push_char(&mut r, '\n');
    proof {
        assert(msg@ =~= "count: "@ + nat_text(count as nat) + " \ttotal: "@ + int_text(
            total as int,
        ));
        assert(r@ =~= count_header(count, total));
    }
    r
}

/// Reads `value["meta"]["pagination"][key]` as an integer.
fn pagination_value(value: &JsonValue, key: &str) -> (r: Option<i64>)
    ensures
        r == pagination_field(value@, key@),
{
    match get_in(get_in(value.get("meta"), "pagination"), key) {
        Some(v) => v.as_i64(),
        None => None,
    }
}

/// The objects among the first `limit` elements of `value["data"]`.
fn objects_in_data<'a>(value: &'a JsonValue, limit: usize) -> (r: Vec<&'a Vec<(String, JsonValue)>>)
    ensures
        objects_view(r@) == objects_among(data_items(value@), limit as int),
{
    let mut objs: Vec<&'a Vec<(String, JsonValue)>> = Vec::new();
    match value.get("data") {
        Some(d) => match d.as_array() {
            Some(items) => {
                proof {
                    lemma_view_values(items@);
                }
                let ghost views = view_values(items@);
                let n = if limit < items.len() {
                    limit
                } else {
                    items.len()
                };
                let mut i: usize = 0;
                while i < n
                    invariant
                        views == view_values(items@),
                        views.len() == items@.len(),
                        forall|k: int| 0 <= k < items@.len() ==> #[trigger] views[k] == items@[k]@,
                        n <= items@.len(),
                        i <= n,
                        objects_view(objs@) == views.take(i as int).filter_map(object_pick()),
                    decreases n - i,
                {
                    proof {
                        views.lemma_filter_map_take_succ(object_pick(), i as int);
                    }
                    match items[i].as_object() {
                        Some(e) => {
                            objs.push(e);
                            assert(objects_view(objs@) =~= views.take(i + 1).filter_map(
                                object_pick(),
                            ));
                        },
                        None => {
                            assert(objects_view(objs@) =~= views.take(i + 1).filter_map(
                                object_pick(),
                            ));
                        },
                    }
                    i = i + 1;
                }
                objs
            },
            None => {
                assert(objects_view(objs@) =~= objects_among(data_items(value@), limit as int));
                objs
            },
        },
        None => {
            assert(objects_view(objs@) =~= objects_among(data_items(value@), limit as int));
            objs
        },
    }
}

/// Shows a page of service search results: the success and count lines,
/// then the records among the first `count` elements of `data` that are
/// objects (see `show_results`).
pub fn show(value: JsonValue, showdata: bool, filter: &str, data_type: Vec<&str>) -> (r: Rendered)
    requires
        has_pagination(value@),
        regex_valid(filter@),
        records_safe(
            objects_among(data_items(value@), page_count(value@) as int),
            names_view(data_type@),
        ),
    ensures
        results_ok(
            r,
            objects_among(data_items(value@), page_count(value@) as int),
            showdata,
            filter@,
            names_view(data_type@),
            count_header(page_count(value@), page_total(value@)),
        ),
{
    let count = match pagination_value(&value, "count") {
        Some(c) => c as usize,
        None => 0,
    };
    let total = match pagination_value(&value, "total") {
        Some(t) => t as i32,
        None => 0,
    };
    let header = count_header_exec(count, total);
    let items = objects_in_data(&value, count);
    let shown = show_results(&items, showdata, filter, data_type.as_slice());
    let mut printed = header;
    append_str(&mut printed, shown.printed.as_str());
    proof {
        assert(printed@ =~= count_header(page_count(value@), page_total(value@)) + (if showdata {
            concat_all(
                objects_view(items@).map_values(
                    |e: Seq<(Seq<char>, Json)>| printed_line(e, filter@, names_view(data_type@)),
                ),
            )
        } else {
            Seq::empty()
        }));
    }
    Rendered { results: shown.results, printed }
}

/// Shows the records of a scrolled search: the elements that are objects
/// (see `show_results`).
pub fn show_scroll(value: Vec<JsonValue>, showdata: bool, filter: &str, data_type: Vec<&str>) -> (r:
    Rendered)
    requires
        regex_valid(filter@),
        records_safe(view_values(value@).filter_map(object_pick()), names_view(data_type@)),
    ensures
        results_ok(
            r,
            view_values(value@).filter_map(object_pick()),
            showdata,
            filter@,
            names_view(data_type@),
            Seq::empty(),
        ),
{
    let objs = objects_of(&value);
    show_results(&objs, showdata, filter, data_type.as_slice())
}


/// Whether the fields asked for include `domain`.
fn asks_for_domain(data_type: &[&str]) -> (b: bool)
    ensures
        b == names_view(data_type@).contains("domain"@),
{
    let mut i: usize = 0;
    while i < data_type.len()
        invariant
            i <= data_type@.len(),
            forall|k: int| 0 <= k < i ==> names_view(data_type@)[k] != "domain"@,
        decreases data_type.len() - i,
    {
        if str_eq(data_type[i], "domain") {
            assert(names_view(data_type@)[i as int] == "domain"@);
            return true;
        }
        i = i + 1;
    }
    false
}

/// Whether showing the fields of every record is free of a panicking
/// address check (see `records_safe`).
fn records_safe_exec(items: &Vec<&Vec<(String, JsonValue)>>, data_type: &[&str]) -> (b: bool)
    ensures
        b == records_safe(objects_view(items@), names_view(data_type@)),
{
    if !asks_for_domain(data_type) {
        return true;
    }
    let mut i: usize = 0;
    while i < items.len()
        invariant
            i <= items@.len(),
            names_view(data_type@).contains("domain"@),
            forall|k: int|
                0 <= k < i ==> domain_check_safe(
                    record_of(#[trigger] objects_view(items@)[k]),
                    names_view(data_type@),
                ),
        decreases items.len() - i,
    {
        let record = Record::from_value(items[i]);
        assert(objects_view(items@)[i as int] == view_entries(items@[i as int]@));
        if ip_check_panics_exec(record.domain.as_str()) {
            return false;
        }
        i = i + 1;
    }
    true
}

/// `show` where the tool would not panic; `None` where it would: a count or
/// total missing from the pagination, a filter that does not compile, or a
/// record's host on which the address check panics.
pub fn try_show(value: JsonValue, showdata: bool, filter: &str, data_type: Vec<&str>) -> (r: Option<
    Rendered,
>)
    ensures
        r is Some <==> has_pagination(value@) && regex_valid(filter@) && records_safe(
            objects_among(data_items(value@), page_count(value@) as int),
            names_view(data_type@),
        ),
        r matches Some(shown) ==> results_ok(
            shown,
            objects_among(data_items(value@), page_count(value@) as int),
            showdata,
            filter@,
            names_view(data_type@),
            count_header(page_count(value@), page_total(value@)),
        ),
{
    let count = match pagination_value(&value, "count") {
        Some(c) => c as usize,
        None => {
            return None;
        },
    };
    if pagination_value(&value, "total").is_none() {
        return None;
    }
    if !regex_is_valid(filter) {
        return None;
    }
    let safe = {
        let items = objects_in_data(&value, count);
        records_safe_exec(&items, data_type.as_slice())
    };
    if !safe {
        return None;
    }
    Some(show(value, showdata, filter, data_type))
}

/// The objects among a list of values.
fn objects_of(value: &Vec<JsonValue>) -> (r: Vec<&Vec<(String, JsonValue)>>)
    ensures
        objects_view(r@) == view_values(value@).filter_map(object_pick()),
{
    proof {
        lemma_view_values(value@);
    }
    let ghost views = view_values(value@);
    let mut objs: Vec<&Vec<(String, JsonValue)>> = Vec::new();
    let mut i: usize = 0;
    while i < value.len()
        invariant
            views == view_values(value@),
            views.len() == value@.len(),
            forall|k: int| 0 <= k < value@.len() ==> #[trigger] views[k] == value@[k]@,
            i <= value@.len(),
            objects_view(objs@) == views.take(i as int).filter_map(object_pick()),
        decreases value.len() - i,
    {
        proof {
            views.lemma_filter_map_take_succ(object_pick(), i as int);
        }
        match value[i].as_object() {
            Some(e) => {
                objs.push(e);
                assert(objects_view(objs@) =~= views.take(i + 1).filter_map(object_pick()));
            },
            None => {
                assert(objects_view(objs@) =~= views.take(i + 1).filter_map(object_pick()));
            },
        }
        i = i + 1;
    }
    assert(views.take(value@.len() as int) =~= views);
    objs
}

/// `show_scroll` where the tool would not panic; `None` where it would: a
/// filter that does not compile, or a record's host on which the address
/// check panics.
pub fn try_show_scroll(value: Vec<JsonValue>, showdata: bool, filter: &str, data_type: Vec<&str>) -> (r:
    Option<Rendered>)
    ensures
        r is Some <==> regex_valid(filter@) && records_safe(
            view_values(value@).filter_map(object_pick()),
            names_view(data_type@),
        ),
        r matches Some(shown) ==> results_ok(
            shown,
            view_values(value@).filter_map(object_pick()),
            showdata,
            filter@,
            names_view(data_type@),
            Seq::empty(),
        ),
{
    if !regex_is_valid(filter) {
        return None;
    }
    let safe = {
        let items = objects_of(&value);
        records_safe_exec(&items, data_type.as_slice())
    };
    if !safe {
        return None;
    }
    Some(show_scroll(value, showdata, filter, data_type))
}

// ---------------------------------------------------------------------
// Host results
// ---------------------------------------------------------------------

/// Whether an object has a member named `key`.
pub open spec fn has_key(e: Seq<(Seq<char>, Json)>, key: Seq<char>) -> bool {
    Json::Object(e).get(key) is Some
}

/// Whether a host object has what the host block indexes without a check:
/// `ip`, a `location` object with `country_en`, `province_en` and
/// `city_en`, and a `services` array.
pub open spec fn host_record_ok(e: Seq<(Seq<char>, Json)>) -> bool {
    &&& has_key(e, "ip"@)
    &&& match Json::Object(e).get("location"@) {
        Some(Json::Object(l)) => has_key(l, "country_en"@) && has_key(l, "province_en"@) && has_key(
            l,
            "city_en"@,
        ),
        _ => false,
    }
    &&& Json::Object(e).get("services"@) matches Some(Json::Array(_))
}

/// The line of a service in a host block: port, protocol and time (with
/// `unknown` removed), the last two right-aligned in 20 columns.
pub open spec fn service_line(s: Json) -> Seq<char> {
    "| "@ + json_text(s.at("port"@)) + "\t"@ + pad_left(str_or(s.get("name"@), Seq::empty()), 20)
        + "\t"@ + pad_left(replaced(str_or(s.get("time"@), Seq::empty()), "unknown"@, Seq::empty()), 20)
        + "\n"@
}

/// The block shown for a host: its address and location, a header, a line
/// per service, and an empty line.
pub open spec fn host_text(e: Seq<(Seq<char>, Json)>) -> Seq<char> {
    let obj = Json::Object(e);
    let loc = obj.at("location"@);
    let services = match obj.get("services"@) {
        Some(Json::Array(items)) => items,
        _ => Seq::empty(),
    };
    "IP: "@ + str_or(obj.get("ip"@), Seq::empty()) + "\tCountry: "@ + str_or(
        loc.get("country_en"@),
        Seq::empty(),
    ) + "\tProvince: "@ + str_or(loc.get("province_en"@), Seq::empty()) + "\tCity: "@ + str_or(
        loc.get("city_en"@),
        Seq::empty(),
    ) + "\n"@ + "| Port"@ + "\t"@ + pad_left("Protocol"@, 20) + "\t"@ + pad_left("time"@, 20) + "\n"@
        + concat_all(services.map_values(|s: Json| service_line(s))) + "\n"@
}

/// The line of one service of a host.
pub fn format_service_line(s: &JsonValue) -> (r: String)
    ensures
        r@ == service_line(s@),
{
    let mut r = String::new();
    append_str(&mut r, "| ");
    let port = match s.get("port") {
        Some(p) => to_json_string(p),
        None => to_json_string(&JsonValue::Null),
    };
    append_str(&mut r, port.as_str());
    append_str(&mut r, "\t");
    let protocol = str_or_empty(s.get("name"));
    let protocol_col = pad_left_exec(protocol.as_str(), 20);
    append_str(&mut r, protocol_col.as_str());
    append_str(&mut r, "\t");
    let time = str_or_empty(s.get("time"));
    proof {
        reveal_strlit("unknown");
    }
    let time_clean = replace_all(time.as_str(), "unknown", "");
    let time_col = pad_left_exec(time_clean.as_str(), 20);
    append_str(&mut r, time_col.as_str());
    append_str(&mut r, "\n");
    proof {
        reveal_strlit("");
        assert(""@ =~= Seq::<char>::empty());
        assert(r@ =~= service_line(s@));
    }
    r
}

/// The block shown for a host (see `host_text`).
pub fn format_host_record(data_value: &Vec<(String, JsonValue)>) -> (r: String)
    requires
        host_record_ok(view_entries(data_value@)),
    ensures
        r@ == host_text(view_entries(data_value@)),
{
    let ghost e = view_entries(data_value@);
    let ip = str_or_empty(entries_lookup(data_value, "ip"));
    let location = entries_lookup(data_value, "location");
    let country = str_or_empty(get_in(location, "country_en"));
    let province = str_or_empty(get_in(location, "province_en"));
    let city = str_or_empty(get_in(location, "city_en"));
    let mut info = String::new();
    append_str(&mut info, "IP: ");
    append_str(&mut info, ip.as_str());
    append_str(&mut info, "\tCountry: ");
    append_str(&mut info, country.as_str());
    append_str(&mut info, "\tProvince: ");
    append_str(&mut info, province.as_str());
    append_str(&mut info, "\tCity: ");
    append_str(&mut info, city.as_str());
    append_str(&mut info, "\n");
    append_str(&mut info, "| Port");
    append_str(&mut info, "\t");
    let protocol_head = pad_left_exec("Protocol", 20);
    append_str(&mut info, protocol_head.as_str());
    append_str(&mut info, "\t");
    let time_head = pad_left_exec("time", 20);
    append_str(&mut info, time_head.as_str());
    append_str(&mut info, "\n");
    let ghost head = info@;
    let services = entries_lookup(data_value, "services");
    match services {
        Some(JsonValue::Array(items)) => {
            proof {
                lemma_view_values(items@);
            }
            let ghost views = view_values(items@);
            let ghost lines = views.map_values(|s: Json| service_line(s));
            let mut i: usize = 0;
            while i < items.len()
                invariant
                    views == view_values(items@),
                    lines == views.map_values(|s: Json| service_line(s)),
                    views.len() == items@.len(),
                    forall|k: int| 0 <= k < items@.len() ==> #[trigger] views[k] == items@[k]@,
                    i <= items@.len(),
                    info@ == head + concat_all(lines.subrange(0, i as int)),
                decreases items.len() - i,
            {
                let line = format_service_line(&items[i]);
                append_str(&mut info, line.as_str());
                proof {
                    assert(lines.subrange(0, i + 1).drop_last() =~= lines.subrange(0, i as int));
                    assert(info@ =~= head + concat_all(lines.subrange(0, i + 1)));
                }
                i = i + 1;
            }
            append_str(&mut info, "\n");
            proof {
                assert(lines.subrange(0, items@.len() as int) =~= lines);
                assert(Json::Object(e).get("services"@) == Some(Json::Array(views)));
                assert(info@ =~= host_text(e));
            }
            info
        },
        _ => {
            proof {
                assert(false);
            }
            info
        },
    }
}

/// Whether the first `count` elements of the data of a host response are
/// host objects that can be shown.
pub open spec fn host_page_ok(v: Json) -> bool {
    &&& has_pagination(v)
    &&& page_count(v) <= data_items(v).len()
    &&& forall|i: int|
        0 <= i < page_count(v) ==> match #[trigger] data_items(v)[i] {
            Json::Object(e) => host_record_ok(e),
            _ => false,
        }
}

/// The blocks of the first `count` hosts of a page.
pub open spec fn host_page_blocks(v: Json) -> Seq<Seq<char>> {
    data_items(v).take(page_count(v) as int).map_values(
        |j: Json|
            match j {
                Json::Object(e) => host_text(e),
                _ => Seq::empty(),
            },
    )
}

/// Shows a page of host results: the success and count lines, then a block
/// per host among the first `count` elements of `data` (printed when
/// `show_data` holds).
pub fn show_host(value: JsonValue, show_data: bool) -> (r: Rendered)
    requires
        host_page_ok(value@),
    ensures
        strings_view(r.results@) == host_page_blocks(value@),
        r.printed@ == count_header(page_count(value@), page_total(value@)) + if show_data {
            concat_all(host_page_blocks(value@))
        } else {
            Seq::empty()
        },
{
    let count = match pagination_value(&value, "count") {
        Some(c) => c as usize,
        None => 0,
    };
    let total = match pagination_value(&value, "total") {
        Some(t) => t as i32,
        None => 0,
    };
    let mut printed = count_header_exec(count, total);
    let ghost head = printed@;
    let ghost blocks = host_page_blocks(value@);
    let mut res: Vec<String> = Vec::new();
    match value.get("data") {
        Some(JsonValue::Array(items)) => {
            proof {
                lemma_view_values(items@);
            }
            let ghost views = view_values(items@);
            assert(data_items(value@) == views);
            let mut i: usize = 0;
            while i < count
                invariant
                    views == view_values(items@),
                    views.len() == items@.len(),
                    forall|k: int| 0 <= k < items@.len() ==> #[trigger] views[k] == items@[k]@,
                    count == page_count(value@),
                    count <= views.len(),
                    host_page_ok(value@),
                    data_items(value@) == views,
                    blocks == host_page_blocks(value@),
                    blocks.len() == count,
                    i <= count,
                    strings_view(res@) == blocks.subrange(0, i as int),
                    printed@ == head + if show_data {
                        concat_all(blocks.subrange(0, i as int))
                    } else {
                        Seq::empty()
                    },
                decreases count - i,
            {
                assert(match views[i as int] {
                    Json::Object(e) => host_record_ok(e),
                    _ => false,
                });
                match items[i].as_object() {
                    Some(e) => {
                        let info = format_host_record(e);
                        assert(info@ == blocks[i as int]);
                        if show_data {
                            append_str(&mut printed, info.as_str());
                            proof {
                                assert(blocks.subrange(0, i + 1).drop_last() =~= blocks.subrange(
                                    0,
                                    i as int,
                                ));
                            }
                        }
                        let ghost prev = res@;
                        assert(strings_view(prev).len() == prev.len());
                        assert(prev.len() == i);
                        res.push(info);
                        proof {
                            assert forall|k: int| 0 <= k < i + 1 implies #[trigger] strings_view(
                                res@,
                            )[k] == blocks.subrange(0, i + 1)[k] by {
                                if k < i {
                                    assert(res@[k] == prev[k]);
                                    assert(strings_view(prev)[k] == prev[k]@);
                                }
                            }
                            assert(strings_view(res@) =~= blocks.subrange(0, i + 1));
                        }
                    },
                    None => {
                        proof {
                            assert(false);
                        }
                    },
                }
                i = i + 1;
            }
            proof {
                assert(blocks.subrange(0, count as int) =~= blocks);
            }
        },
        _ => {
            proof {
                assert(data_items(value@).len() == 0);
                assert(blocks =~= Seq::<Seq<char>>::empty());
                assert(strings_view(res@) =~= blocks);
                assert(printed@ =~= head + Seq::<char>::empty());
            }
        },
    }
    Rendered { results: res, printed }
}

/// The blocks of the host objects among a scrolled search's elements.
pub open spec fn host_scroll_blocks(values: Seq<Json>) -> Seq<Seq<char>> {
    values.filter_map(object_pick()).map_values(|e: Seq<(Seq<char>, Json)>| host_text(e))
}

/// Shows the hosts of a scrolled search: a block per element that is an
/// object (printed when `show_data` holds).
pub fn show_host_by_scroll(value: Vec<JsonValue>, show_data: bool) -> (r: Rendered)
    requires
        forall|i: int|
            0 <= i < view_values(value@).filter_map(object_pick()).len() ==> host_record_ok(
                #[trigger] view_values(value@).filter_map(object_pick())[i],
            ),
    ensures
        strings_view(r.results@) == host_scroll_blocks(view_values(value@)),
        r.printed@ == if show_data {
            concat_all(host_scroll_blocks(view_values(value@)))
        } else {
            Seq::empty()
        },
{
    proof {
        lemma_view_values(value@);
    }
    let ghost views = view_values(value@);
    let ghost objs = views.filter_map(object_pick());
    let mut res: Vec<String> = Vec::new();
    let mut printed = String::new();
    let mut i: usize = 0;
    while i < value.len()
        invariant
            views == view_values(value@),
            objs == views.filter_map(object_pick()),
            views.len() == value@.len(),
            forall|k: int| 0 <= k < value@.len() ==> #[trigger] views[k] == value@[k]@,
            forall|k: int| 0 <= k < objs.len() ==> host_record_ok(#[trigger] objs[k]),
            i <= value@.len(),
            strings_view(res@) == views.take(i as int).filter_map(object_pick()).map_values(
                |e: Seq<(Seq<char>, Json)>| host_text(e),
            ),
            printed@ == if show_data {
                concat_all(strings_view(res@))
            } else {
                Seq::empty()
            },
        decreases value.len() - i,
    {
        proof {
            views.lemma_filter_map_take_succ(object_pick(), i as int);
            lemma_filter_map_prefix(views, object_pick(), i + 1);
        }
        let ghost taken = views.take(i as int).filter_map(object_pick());
        match value[i].as_object() {
            Some(e) => {
                proof {
                    let next = views.take(i + 1).filter_map(object_pick());
                    assert(next =~= taken.push(view_entries(e@)));
                    assert(next[taken.len() as int] == view_entries(e@));
                    assert(objs[taken.len() as int] == view_entries(e@));
                }
                let info = format_host_record(e);
                if show_data {
                    append_str(&mut printed, info.as_str());
                }
                let ghost prev = res@;
                res.push(info);
                proof {
                    let next = views.take(i + 1).filter_map(object_pick());
                    assert(strings_view(res@) =~= strings_view(prev).push(info@));
                    assert(strings_view(res@) =~= next.map_values(
                        |e: Seq<(Seq<char>, Json)>| host_text(e),
                    ));
                    assert(strings_view(res@).drop_last() =~= strings_view(prev));
                }
            },
            None => {
                assert(views.take(i + 1).filter_map(object_pick()) =~= taken);
            },
        }
        i = i + 1;
    }
    assert(views.take(value@.len() as int) =~= views);
    Rendered { results: res, printed }
}

/// The filtered elements of a prefix are a prefix of the filtered elements.
pub proof fn lemma_filter_map_prefix<A, B>(s: Seq<A>, f: spec_fn(A) -> Option<B>, n: int)
    requires
        0 <= n <= s.len(),
    ensures
        s.take(n).filter_map(f).len() <= s.filter_map(f).len(),
        forall|k: int|
            0 <= k < s.take(n).filter_map(f).len() ==> #[trigger] s.take(n).filter_map(f)[k]
                == s.filter_map(f)[k],
    decreases s.len() - n,
{
    if n < s.len() {
        s.lemma_filter_map_take_succ(f, n);
        lemma_filter_map_prefix(s, f, n + 1);
        let a = s.take(n).filter_map(f);
        let b = s.take(n + 1).filter_map(f);
        assert forall|k: int| 0 <= k < a.len() implies #[trigger] a[k] == s.filter_map(f)[k] by {
            assert(a[k] == b[k]);
        }
    } else {
        assert(s.take(n) =~= s);
    }
}


// ---------------------------------------------------------------------
// Domain results
// ---------------------------------------------------------------------

/// The text shown for one field of a domain record: the HTTP host, the
/// sanitized title, the address without quotes, or the port as JSON text,
/// each followed by a tab; nothing for any other name.
pub open spec fn domain_field(d: Json, field: Seq<char>) -> Seq<char> {
    let http = opt_get(d.get("service"@), "http"@);
    if field == "domain"@ {
        str_or(opt_get(http, "host"@), Seq::empty()) + seq!['\t']
    } else if field == "title"@ {
        sanitized(str_or(opt_get(http, "title"@), Seq::empty())) + seq!['\t']
    } else if field == "ip"@ {
        unquoted(str_or(d.get("ip"@), Seq::empty())) + seq!['\t']
    } else if field == "port"@ {
        json_text(d.at("port"@)) + seq!['\t']
    } else {
        Seq::empty()
    }
}

/// The line of a domain record: its fields in the order asked for.
pub open spec fn domain_line(d: Json, fields: Seq<Seq<char>>) -> Seq<char>
    decreases fields.len(),
{
    if fields.len() == 0 {
        Seq::empty()
    } else {
        domain_line(d, fields.drop_last()) + domain_field(d, fields.last())
    }
}

/// The lines of the first `count` records of a domain page.
pub open spec fn domain_lines(v: Json, fields: Seq<Seq<char>>) -> Seq<Seq<char>> {
    Seq::new(
        page_count(v) as nat,
        |i: int| domain_line(v.at("data"@).at_index(i), fields),
    )
}

/// The text printed for domain lines: each line and a line break.
pub open spec fn with_newlines(lines: Seq<Seq<char>>) -> Seq<char> {
    concat_all(lines.map_values(|l: Seq<char>| l + seq!['\n']))
}

/// The line of one domain record.
pub fn format_domain_line(d: &JsonValue, data_type: &[&str]) -> (r: String)
    ensures
        r@ == domain_line(d@, names_view(data_type@)),
{
    let http = get_in(d.get("service"), "http");
    let domain = str_or_empty(get_in(http, "host"));
    let title = str_or_empty(get_in(http, "title"));
    let ip = str_or_empty(d.get("ip"));
    let port = match d.get("port") {
        Some(p) => to_json_string(p),
        None => to_json_string(&JsonValue::Null),
    };
    let ghost fields = names_view(data_type@);
    let mut f = String::new();
    let mut i: usize = 0;
    while i < data_type.len()
        invariant
            fields == names_view(data_type@),
            i <= data_type@.len(),
            domain@ == str_or(opt_get(opt_get(d@.get("service"@), "http"@), "host"@), Seq::empty()),
            title@ == str_or(opt_get(opt_get(d@.get("service"@), "http"@), "title"@), Seq::empty()),
            ip@ == str_or(d@.get("ip"@), Seq::empty()),
            port@ == json_text(d@.at("port"@)),
            f@ == domain_line(d@, fields.subrange(0, i as int)),
        decreases data_type.len() - i,
    {
        let data: &str = data_type[i];
        let ghost before = f@;
        proof {
            assert(fields[i as int] == data@);
            assert(fields.subrange(0, i + 1).drop_last() =~= fields.subrange(0, i as int));
        }
        if str_eq(data, "domain") {
            append_str(&mut f, domain.as_str());
            push_char(&mut f, '\t');
        } else if str_eq(data, "title") {
            let t = sanitize(title.as_str());
            append_str(&mut f, t.as_str());
            push_char(&mut f, '\t');
        } else if str_eq(data, "ip") {
            let t = remove_quotes(ip.as_str());
            append_str(&mut f, t.as_str());
            push_char(&mut f, '\t');
        } else if str_eq(data, "port") {
            append_str(&mut f, port.as_str());
            push_char(&mut f, '\t');
        }
        assert(f@ =~= before + domain_field(d@, data@));
        i = i + 1;
    }
    assert(fields.subrange(0, data_type@.len() as int) =~= fields);
    f
}

/// What `show_domain` prints after the count lines: the total when only the
/// count is asked for, the lines otherwise (each only when `showdata`
/// holds).
pub open spec fn domain_printed(v: Json, onlycount: bool, showdata: bool, fields: Seq<Seq<char>>) -> Seq<
    char,
> {
    if !showdata {
        Seq::empty()
    } else if onlycount {
        int_text(page_total(v) as int) + seq!['\n']
    } else {
        with_newlines(domain_lines(v, fields))
    }
}

/// Whether a page of domain results can be shown without a panic: it has
/// an integer count and total; and, where the records are listed, `data` is
/// an array of at least `count` elements (the tool takes each one out of the
/// array by index, a negative count read as a huge one).
pub open spec fn domain_page_ok(v: Json, onlycount: bool) -> bool {
    &&& has_pagination(v)
    &&& !onlycount ==> page_count(v) <= data_items(v).len()
}

/// Shows a page of domain results: the success and count lines, then either
/// the total alone (`onlycount`) or a line per record among the first
/// `count` elements of `data`.
pub fn show_domain(value: JsonValue, onlycount: bool, showdata: bool, data_type: Vec<&str>) -> (r:
    Rendered)
    requires
        domain_page_ok(value@, onlycount),
    ensures
        strings_view(r.results@) == if onlycount {
            Seq::<Seq<char>>::empty()
        } else {
            domain_lines(value@, names_view(data_type@))
        },
        r.printed@ == count_header(page_count(value@), page_total(value@)) + domain_printed(
            value@,
            onlycount,
            showdata,
            names_view(data_type@),
        ),
{
    let count = match pagination_value(&value, "count") {
        Some(c) => c as usize,
        None => 0,
    };
    let total = match pagination_value(&value, "total") {
        Some(t) => t as i32,
        None => 0,
    };
    let mut printed = count_header_exec(count, total);
    let ghost head = printed@;
    let mut res: Vec<String> = Vec::new();
    if onlycount {
        if showdata {
            let t = i64_text(total as i64);
            append_str(&mut printed, t.as_str());
            push_char(&mut printed, '\n');
        }
        proof {
            assert(strings_view(res@) =~= Seq::<Seq<char>>::empty());
            assert(printed@ =~= head + domain_printed(
                value@,
                onlycount,
                showdata,
                names_view(data_type@),
            ));
        }
        return Rendered { results: res, printed };
    }
    let ghost lines = domain_lines(value@, names_view(data_type@));
    let null = JsonValue::Null;
    let data = value.get("data");
    let mut i: usize = 0;
    while i < count
        invariant
            count == page_count(value@),
            lines == domain_lines(value@, names_view(data_type@)),
            lines.len() == count,
            null@ == Json::Null,
            opt_view(data) == value@.get("data"@),
            i <= count,
            strings_view(res@) == lines.subrange(0, i as int),
            printed@ == head + if showdata {
                with_newlines(lines.subrange(0, i as int))
            } else {
                Seq::empty()
            },
        decreases count - i,
    {
        let item: &JsonValue = match data {
            Some(d) => match d.as_array() {
                Some(items) => {
                    proof {
                        lemma_view_values(items@);
                    }
                    if i < items.len() {
                        &items[i]
                    } else {
                        &null
                    }
                },
                None => &null,
            },
            None => &null,
        };
        assert(item@ == value@.at("data"@).at_index(i as int));
        let f = format_domain_line(item, data_type.as_slice());
        assert(f@ == lines[i as int]);
        if showdata {
            let ghost before = printed@;
            append_str(&mut printed, f.as_str());
            push_char(&mut printed, '\n');
            proof {
                let ls = lines.subrange(0, i + 1);
                assert(ls.drop_last() =~= lines.subrange(0, i as int));
                assert(ls.map_values(|l: Seq<char>| l + seq!['\n']).drop_last() =~= lines.subrange(
                    0,
                    i as int,
                ).map_values(|l: Seq<char>| l + seq!['\n']));
                assert(printed@ =~= head + with_newlines(ls));
            }
        }
        let ghost prev = res@;
        assert(strings_view(prev).len() == prev.len());
        res.push(f);
        proof {
            assert forall|k: int| 0 <= k < i + 1 implies #[trigger] strings_view(res@)[k]
                == lines.subrange(0, i + 1)[k] by {
                if k < i {
                    assert(res@[k] == prev[k]);
                    assert(strings_view(prev)[k] == prev[k]@);
                }
            }
            assert(strings_view(res@) =~= lines.subrange(0, i + 1));
        }
        i = i + 1;
    }
    proof {
        assert(lines.subrange(0, count as int) =~= lines);
    }
    Rendered { results: res, printed }
}

// ---------------------------------------------------------------------
// Account information
// ---------------------------------------------------------------------

/// The response code as the tool reads it (`as_i64`, `-1` when missing,
/// then `as i32`).
pub open spec fn response_code(info: Json) -> i32 {
    (match opt_i64(info.get("code"@)) {
        Some(c) => c,
        None => -1i64,
    }) as i32
}

/// The members of `info["data"]` (none when it is no object).
pub open spec fn info_data(info: Json) -> Seq<(Seq<char>, Json)> {
    match info.get("data"@) {
        Some(Json::Object(d)) => d,
        _ => Seq::empty(),
    }
}

/// Whether an account response has what the account summary indexes
/// without a check.
pub open spec fn info_ok(info: Json) -> bool {
    response_code(info) == 0 ==> {
        &&& info.get("data"@) matches Some(Json::Object(d))
        &&& has_key(d, "credit"@)
        &&& has_key(d, "persistent_credit"@)
        &&& has_key(d, "user"@)
        &&& has_key(d, "mobile_phone"@)
        &&& Json::Object(d).get("role"@) matches Some(Json::Array(_))
    }
}

/// The texts of a list joined by `sep`.
pub open spec fn joined(s: Seq<Seq<char>>, sep: Seq<char>) -> Seq<char>
    decreases s.len(),
{
    if s.len() == 0 {
        Seq::empty()
    } else if s.len() == 1 {
        s[0]
    } else {
        joined(s.drop_last(), sep) + sep + s.last()
    }
}

/// Picks the `fullname` string out of a role.
pub open spec fn role_name() -> spec_fn(Json) -> Option<Seq<char>> {
    |r: Json|
        match r.get("fullname"@) {
            Some(n) => n.as_str(),
            None => None,
        }
}

/// An integer member, or 0.
pub open spec fn int_or_zero(o: Option<Json>) -> int {
    match opt_i64(o) {
        Some(c) => c as int,
        None => 0,
    }
}

/// The account summary printed for an account response: on success the
/// user name, e-mail, phone (each `无` when missing), monthly and long-term
/// credit, and the role names joined by commas; otherwise the message.
pub open spec fn info_text(info: Json) -> Seq<char> {
    if response_code(info) == 0 {
        let d = Json::Object(info_data(info));
        let user = d.get("user"@);
        let roles = match d.get("role"@) {
            Some(Json::Array(rs)) => rs,
            _ => Seq::empty(),
        };
        success_line("Successful."@) + seq!['\n'] + info_line(
            "用户名:  "@ + str_or(opt_get(user, "username"@), "无"@),
        ) + seq!['\n'] + info_line("邮  箱:  "@ + str_or(opt_get(user, "email"@), "无"@)) + seq![
            '\n',
        ] + info_line("手  机:  "@ + str_or(d.get("mobile_phone"@), "无"@)) + seq!['\n'] + info_line(
            "月度积分: "@ + int_text(int_or_zero(d.get("credit"@))),
        ) + seq!['\n'] + info_line(
            "长效积分: "@ + int_text(int_or_zero(d.get("persistent_credit"@))),
        ) + seq!['\n'] + info_line("角  色:  "@ + joined(roles.filter_map(role_name()), ","@))
            + seq!['\n']
    } else {
        error_line(str_or(info.get("message"@), "Unknown error"@)) + seq!['\n']
    }
}

/// The string held by an optional value, or `default`.
fn str_or_default(o: Option<&JsonValue>, default: &str) -> (r: String)
    ensures
        r@ == str_or(opt_view(o), default@),
{
    match o {
        Some(v) => match v.as_str() {
            Some(s) => s.clone(),
            None => default.to_string(),
        },
        None => default.to_string(),
    }
}

/// The decimal text of an integer member, 0 when it has none.
fn int_text_or_zero(o: Option<&JsonValue>) -> (r: String)
    ensures
        r@ == int_text(int_or_zero(opt_view(o))),
{
    let n: i64 = match o {
        Some(v) => match v.as_i64() {
            Some(c) => c,
            None => 0,
        },
        None => 0,
    };
    i64_text(n)
}

/// The response code as the tool reads it.
pub fn response_code_exec(info: &JsonValue) -> (r: i32)
    ensures
        r == response_code(info@),
{
    let c: i64 = match info.get("code") {
        Some(v) => match v.as_i64() {
            Some(c) => c,
            None => -1,
        },
        None => -1,
    };
    c as i32
}

/// Appends a line and a line break.
fn push_line(out: &mut String, line: String)
    ensures
        final(out)@ == old(out)@ + line@ + seq!['\n'],
{
    append_str(out, line.as_str());
    push_char(out, '\n');
}

/// Appends a blue information line made of a label and a value.
fn push_info(out: &mut String, label: &str, value: &str)
    ensures
        final(out)@ == old(out)@ + info_line(label@ + value@) + seq!['\n'],
{
    let mut msg = String::new();
    append_str(&mut msg, label);
    append_str(&mut msg, value);
    assert(msg@ =~= label@ + value@);
    push_line(out, Output::info(msg.as_str()));
}

/// The role names of an account joined by commas.
fn role_names(roles: &Vec<JsonValue>) -> (r: String)
    ensures
        r@ == joined(view_values(roles@).filter_map(role_name()), ","@),
{
    proof {
        lemma_view_values(roles@);
    }
    let ghost views = view_values(roles@);
    let mut r = String::new();
    let mut any = false;
    let mut i: usize = 0;
    while i < roles.len()
        invariant
            views == view_values(roles@),
            views.len() == roles@.len(),
            forall|k: int| 0 <= k < roles@.len() ==> #[trigger] views[k] == roles@[k]@,
            i <= roles@.len(),
            any == (views.take(i as int).filter_map(role_name()).len() > 0),
            r@ == joined(views.take(i as int).filter_map(role_name()), ","@),
        decreases roles.len() - i,
    {
        proof {
            views.lemma_filter_map_take_succ(role_name(), i as int);
        }
        let ghost names = views.take(i as int).filter_map(role_name());
        match roles[i].get("fullname") {
            Some(n) => match n.as_str() {
                Some(name) => {
                    if any {
                        append_str(&mut r, ",");
                    }
                    append_str(&mut r, name.as_str());
                    any = true;
                    proof {
                        let next = views.take(i + 1).filter_map(role_name());
                        assert(next =~= names.push(name@));
                        assert(next.drop_last() =~= names);
                        if names.len() == 0 {
                            assert(r@ =~= joined(next, ","@));
                        } else {
                            assert(r@ =~= joined(next, ","@));
                        }
                    }
                },
                None => {
                    assert(views.take(i + 1).filter_map(role_name()) =~= names);
                },
            },
            None => {
                assert(views.take(i + 1).filter_map(role_name()) =~= names);
            },
        }
        i = i + 1;
    }
    assert(views.take(roles@.len() as int) =~= views);
    r
}

/// The account summary (see `info_text`), to be printed.
pub fn show_info(info: JsonValue) -> (r: String)
    requires
        info_ok(info@),
    ensures
        r@ == info_text(info@),
{
    let code = response_code_exec(&info);
    let mut out = String::new();
    if code == 0 {
        match info.get("data") {
            Some(JsonValue::Object(data)) => {
                proof {
                    assert(info_data(info@) == view_entries(data@));
                }
                let user = entries_lookup(data, "user");
                let username = str_or_default(get_in(user, "username"), "无");
                let email = str_or_default(get_in(user, "email"), "无");
                let mobile_phone = str_or_default(entries_lookup(data, "mobile_phone"), "无");
                let credit = int_text_or_zero(entries_lookup(data, "credit"));
                let persistent_credit = int_text_or_zero(entries_lookup(data, "persistent_credit"));
                let roles = match entries_lookup(data, "role") {
                    Some(JsonValue::Array(rs)) => role_names(rs),
                    _ => {
                        proof {
                            assert(false);
                        }
                        String::new()
                    },
                };
                push_line(&mut out, Output::success("Successful."));
                push_info(&mut out, "用户名:  ", username.as_str());
                push_info(&mut out, "邮  箱:  ", email.as_str());
                push_info(&mut out, "手  机:  ", mobile_phone.as_str());
                push_info(&mut out, "月度积分: ", credit.as_str());
                push_info(&mut out, "长效积分: ", persistent_credit.as_str());
                push_info(&mut out, "角  色:  ", roles.as_str());
                assert(out@ =~= info_text(info@));
            },
            _ => {
                proof {
                    assert(false);
                }
            },
        }
    } else {
        let message = str_or_default(info.get("message"), "Unknown error");
        push_line(&mut out, Output::error(message.as_str()));
        assert(out@ =~= info_text(info@));
    }
    out
}

/// Whether a credit response has what the credit line indexes without a
/// check.
pub open spec fn info_jf_ok(info: Json) -> bool {
    response_code(info) == 0 ==> (info.get("data"@) matches Some(Json::Object(d)) && has_key(
        d,
        "credit"@,
    ))
}

/// The credit line printed after a page of results: the monthly credit on
/// success, nothing otherwise.
pub open spec fn info_jf_text(info: Json) -> Seq<char> {
    if response_code(info) == 0 {
        info_line(
            "月度积分: "@ + int_text(int_or_zero(Json::Object(info_data(info)).get("credit"@))),
        ) + seq!['\n']
    } else {
        Seq::empty()
    }
}

/// The monthly-credit line (see `info_jf_text`), to be printed.
pub fn show_info_jf(info: JsonValue) -> (r: String)
    requires
        info_jf_ok(info@),
    ensures
        r@ == info_jf_text(info@),
{
    let code = response_code_exec(&info);
    let mut out = String::new();
    if code == 0 {
        match info.get("data") {
            Some(JsonValue::Object(data)) => {
                proof {
                    assert(info_data(info@) == view_entries(data@));
                }
                let credit = int_text_or_zero(entries_lookup(data, "credit"));
                push_info(&mut out, "月度积分: ", credit.as_str());
                assert(out@ =~= info_jf_text(info@));
            },
            _ => {
                proof {
                    assert(false);
                }
            },
        }
    } else {
        assert(out@ =~= info_jf_text(info@));
    }
    out
}

// ---------------------------------------------------------------------
// Honeypot check
// ---------------------------------------------------------------------

/// The aggregated applications of a honeypot response, `data.app`.
pub open spec fn honeypot_apps(response: Json) -> Option<Seq<Json>> {
    match opt_get(response.get("data"@), "app"@) {
        Some(Json::Array(apps)) => Some(apps),
        _ => None,
    }
}

/// Whether a honeypot response has what the verdict indexes without a
/// check: an `app` array whose first element, if any, is an object with a
/// string `key`.
pub open spec fn honeypot_ok(response: Json) -> bool {
    match honeypot_apps(response) {
        Some(apps) => apps.len() > 0 ==> (apps[0] matches Json::Object(e) && Json::Object(e).get(
            "key"@,
        ) matches Some(Json::Str(_))),
        None => false,
    }
}

/// The verdict printed for a honeypot response: the honeypot kind named by
/// the first application (with `蜜罐` and quotes removed), or a real system
/// when there is none.
pub open spec fn honeypot_text(response: Json) -> Seq<char> {
    let apps = honeypot_apps(response)->Some_0;
    if apps.len() > 0 {
        let kind = str_or(apps[0].get("key"@), Seq::empty());
        error_line(
            "Looks like a "@ + unquoted(replaced(kind, "蜜罐"@, Seq::empty())) + " honeypot system! "@,
        ) + seq!['\n']
    } else {
        success_line("Looks like a real system!"@) + seq!['\n']
    }
}

/// The honeypot verdict (see `honeypot_text`), to be printed.
pub fn display_honeypot(response: JsonValue) -> (r: String)
    requires
        honeypot_ok(response@),
    ensures
        r@ == honeypot_text(response@),
{
    let mut out = String::new();
    match get_in(response.get("data"), "app") {
        Some(JsonValue::Array(apps)) => {
            proof {
                lemma_view_values(apps@);
            }
            if apps.len() > 0 {
                let kind = str_or_empty(apps[0].get("key"));
                proof {
                    reveal_strlit("蜜罐");
                }
                let no_mark = replace_all(kind.as_str(), "蜜罐", "");
                let honeypot = remove_quotes(no_mark.as_str());
                let mut msg = String::new();
                append_str(&mut msg, "Looks like a ");
                append_str(&mut msg, honeypot.as_str());
                append_str(&mut msg, " honeypot system! ");
                push_line(&mut out, Output::error(msg.as_str()));
                proof {
                    reveal_strlit("");
                    assert(""@ =~= Seq::<char>::empty());
                    assert(out@ =~= honeypot_text(response@));
                }
            } else {
                push_line(&mut out, Output::success("Looks like a real system!"));
                assert(out@ =~= honeypot_text(response@));
            }
        },
        _ => {
            proof {
                assert(false);
            }
        },
    }
    out
}

// ---------------------------------------------------------------------
// Checks before showing
// ---------------------------------------------------------------------

/// Whether a host object has what its block reads without a check (see
/// `host_record_ok`).
pub fn host_record_checked(e: &Vec<(String, JsonValue)>) -> (b: bool)
    ensures
        b == host_record_ok(view_entries(e@)),
{
    if entries_lookup(e, "ip").is_none() {
        return false;
    }
    let location_ok = match entries_lookup(e, "location") {
        Some(JsonValue::Object(l)) => entries_lookup(l, "country_en").is_some() && entries_lookup(
            l,
            "province_en",
        ).is_some() && entries_lookup(l, "city_en").is_some(),
        _ => false,
    };
    let services_ok = match entries_lookup(e, "services") {
        Some(JsonValue::Array(_)) => true,
        _ => false,
    };
    location_ok && services_ok
}

/// Whether a page of host results can be shown without a panic (see
/// `host_page_ok`).
pub fn host_page_checked(value: &JsonValue) -> (b: bool)
    ensures
        b == host_page_ok(value@),
{
    let count = match pagination_value(value, "count") {
        Some(c) => c as usize,
        None => {
            return false;
        },
    };
    if pagination_value(value, "total").is_none() {
        return false;
    }
    let items = match value.get("data") {
        Some(JsonValue::Array(items)) => items,
        _ => {
            return count == 0;
        },
    };
    proof {
        lemma_view_values(items@);
    }
    if count > items.len() {
        return false;
    }
    let mut i: usize = 0;
    while i < count
        invariant
            count == page_count(value@),
            count <= items@.len(),
            data_items(value@) == view_values(items@),
            view_values(items@).len() == items@.len(),
            forall|k: int| 0 <= k < items@.len() ==> #[trigger] view_values(items@)[k] == items@[k]@,
            i <= count,
            forall|k: int|
                0 <= k < i ==> match #[trigger] data_items(value@)[k] {
                    Json::Object(e) => host_record_ok(e),
                    _ => false,
                },
        decreases count - i,
    {
        assert(data_items(value@)[i as int] == items@[i as int]@);
        let ok = match items[i].as_object() {
            Some(e) => host_record_checked(e),
            None => false,
        };
        if !ok {
            return false;
        }
        i = i + 1;
    }
    true
}

/// Whether every object among scrolled host results can be shown without
/// a panic (see `show_host_by_scroll`).
pub fn scroll_hosts_checked(value: &Vec<JsonValue>) -> (b: bool)
    ensures
        b == forall|i: int|
            0 <= i < view_values(value@).filter_map(object_pick()).len() ==> host_record_ok(
                #[trigger] view_values(value@).filter_map(object_pick())[i],
            ),
{
    let objs = objects_of(value);
    let mut i: usize = 0;
    while i < objs.len()
        invariant
            objects_view(objs@) == view_values(value@).filter_map(object_pick()),
            i <= objs@.len(),
            forall|k: int|
                0 <= k < i ==> host_record_ok(
                    #[trigger] view_values(value@).filter_map(object_pick())[k],
                ),
        decreases objs.len() - i,
    {
        assert(objects_view(objs@)[i as int] == view_entries(objs@[i as int]@));
        if !host_record_checked(objs[i]) {
            return false;
        }
        i = i + 1;
    }
    true
}

/// Whether a page of domain results can be shown without a panic (see
/// `domain_page_ok`).
pub fn domain_page_checked(value: &JsonValue, onlycount: bool) -> (b: bool)
    ensures
        b == domain_page_ok(value@, onlycount),
{
    let count = match pagination_value(value, "count") {
        Some(c) => c,
        None => {
            return false;
        },
    };
    if pagination_value(value, "total").is_none() {
        return false;
    }
    if onlycount {
        return true;
    }
    let len: usize = match value.get("data") {
        Some(JsonValue::Array(items)) => {
            proof {
                lemma_view_values(items@);
            }
            items.len()
        },
        _ => 0,
    };
    count as usize <= len
}

/// Whether an account response can be shown without a panic (see
/// `info_ok`).
pub fn info_checked(info: &JsonValue) -> (b: bool)
    ensures
        b == info_ok(info@),
{
    if response_code_exec(info) != 0 {
        return true;
    }
    match info.get("data") {
        Some(JsonValue::Object(d)) => {
            let roles_ok = match entries_lookup(d, "role") {
                Some(JsonValue::Array(_)) => true,
                _ => false,
            };
            entries_lookup(d, "credit").is_some() && entries_lookup(d, "persistent_credit").is_some()
                && entries_lookup(d, "user").is_some() && entries_lookup(d, "mobile_phone").is_some()
                && roles_ok
        },
        _ => false,
    }
}

/// Whether a credit response can be shown without a panic (see
/// `info_jf_ok`).
pub fn info_jf_checked(info: &JsonValue) -> (b: bool)
    ensures
        b == info_jf_ok(info@),
{
    if response_code_exec(info) != 0 {
        return true;
    }
    match info.get("data") {
        Some(JsonValue::Object(d)) => entries_lookup(d, "credit").is_some(),
        _ => false,
    }
}

/// Whether a honeypot response can be shown without a panic (see
/// `honeypot_ok`).
pub fn honeypot_checked(response: &JsonValue) -> (b: bool)
    ensures
        b == honeypot_ok(response@),
{
    match get_in(response.get("data"), "app") {
        Some(JsonValue::Array(apps)) => {
            proof {
                lemma_view_values(apps@);
            }
            if apps.len() == 0 {
                true
            } else {
                match &apps[0] {
                    JsonValue::Object(e) => match entries_lookup(e, "key") {
                        Some(JsonValue::String(_)) => true,
                        _ => false,
                    },
                    _ => false,
                }
            }
        },
        _ => false,
    }
}

} // verus!
