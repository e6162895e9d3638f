//! What the shown fields, blocks, verdicts and filters are, stated directly
//! over the members of the API's JSON and the filter constants.
use vstd::prelude::*;
use crate::client::{shortcut_ids, SHORTCUT_CDN, SHORTCUT_MG, SHORTCUT_SJQC, SHORTCUT_WXQQ};
use crate::display::{
    domain_field, domain_line, field_value, honeypot_text, host_text, record_of, sanitized,
    service_line, unquoted, RecordView,
};
use crate::ip_check::ip_address_valid;
use crate::json::{json_text, opt_get, str_or, Json};
use crate::models::error_line;
use crate::text::{pad_left, replaced};

verus! {

/// The fields of a service record are the members the API names for them:
/// the address, the port's JSON text, the page title, the product and
/// version of the first component, the protocol, the country, province,
/// city and owner of the location, the time and the HTTP host (address,
/// title, product, version, protocol and host with quotes, tabs and line
/// breaks removed).
pub proof fn lemma_record_members(e: Seq<(Seq<char>, Json)>)
    ensures
        ({
            let obj = Json::Object(e);
            let location = obj.get("location"@);
            let service = obj.get("service"@);
            let http = opt_get(service, "http"@);
            let component = match obj.get("components"@) {
                Some(Json::Array(items)) => if items.len() > 0 {
                    Some(items[0])
                } else {
                    None
                },
                _ => None,
            };
            let rec = record_of(e);
            &&& rec.ip == sanitized(str_or(obj.get("ip"@), Seq::empty()))
            &&& rec.port == match obj.get("port"@) {
                Some(p) => json_text(p),
                None => Seq::empty(),
            }
            &&& rec.title == sanitized(str_or(opt_get(http, "title"@), Seq::empty()))
            &&& rec.product_name_cn == sanitized(
                str_or(opt_get(component, "product_name_cn"@), Seq::empty()),
            )
            &&& rec.version == sanitized(str_or(opt_get(component, "version"@), Seq::empty()))
            &&& rec.protocol == sanitized(str_or(opt_get(service, "name"@), Seq::empty()))
            &&& rec.country == str_or(opt_get(location, "country_cn"@), Seq::empty())
            &&& rec.province == str_or(opt_get(location, "province_cn"@), Seq::empty())
            &&& rec.city == str_or(opt_get(location, "city_cn"@), Seq::empty())
            &&& rec.owner == str_or(opt_get(location, "owner"@), Seq::empty())
            &&& rec.time == str_or(obj.get("time"@), Seq::empty())
            &&& rec.domain == sanitized(str_or(opt_get(http, "host"@), Seq::empty()))
        }),
{
}

/// Each field name of `-t` selects its own field of a record; `domain`
/// selects the HTTP host unless it is an IP address, and any other name
/// selects nothing.
pub proof fn lemma_field_names(rec: RecordView, other: Seq<char>)
    requires
        other != "ip"@,
        other != "port"@,
        other != "title"@,
        other != "product_name_cn"@,
        other != "version"@,
        other != "protocol"@,
        other != "country"@,
        other != "province"@,
        other != "city"@,
        other != "owner"@,
        other != "time"@,
        other != "ssldomain"@,
        other != "domain"@,
    ensures
        field_value(rec, "ip"@) == rec.ip,
        field_value(rec, "port"@) == rec.port,
        field_value(rec, "title"@) == rec.title,
        field_value(rec, "product_name_cn"@) == rec.product_name_cn,
        field_value(rec, "version"@) == rec.version,
        field_value(rec, "protocol"@) == rec.protocol,
        field_value(rec, "country"@) == rec.country,
        field_value(rec, "province"@) == rec.province,
        field_value(rec, "city"@) == rec.city,
        field_value(rec, "owner"@) == rec.owner,
        field_value(rec, "time"@) == rec.time,
        field_value(rec, "ssldomain"@) == rec.ssl,
        field_value(rec, "domain"@) == if ip_address_valid(rec.domain) {
            Seq::empty()
        } else {
            rec.domain
        },
        field_value(rec, other) == Seq::<char>::empty(),
{
    reveal_strlit("ip");
    reveal_strlit("port");
    reveal_strlit("title");
    reveal_strlit("product_name_cn");
    reveal_strlit("version");
    reveal_strlit("protocol");
    reveal_strlit("country");
    reveal_strlit("province");
    reveal_strlit("city");
    reveal_strlit("owner");
    reveal_strlit("time");
    reveal_strlit("ssldomain");
    reveal_strlit("domain");
    assert("ip"@.len() == 2 && "port"@.len() == 4 && "title"@.len() == 5
        && "product_name_cn"@.len() == 15 && "version"@.len() == 7 && "protocol"@.len() == 8
        && "country"@.len() == 7 && "province"@.len() == 8 && "city"@.len() == 4
        && "owner"@.len() == 5 && "time"@.len() == 4 && "ssldomain"@.len() == 9
        && "domain"@.len() == 6);
    assert("port"@[0] != "city"@[0] && "port"@[0] != "time"@[0] && "city"@[0] != "time"@[0]);
    assert("title"@[0] != "owner"@[0]);
    assert("version"@[0] != "country"@[0]);
    assert("protocol"@[0] == "province"@[0] && "protocol"@[3] != "province"@[3]);
}

/// The first line of a host's block: its address, then the country,
/// province and city of its location, in that order.
pub proof fn lemma_host_first_line(e: Seq<(Seq<char>, Json)>)
    ensures
        ({
            let obj = Json::Object(e);
            let location = obj.at("location"@);
            let line = "IP: "@ + str_or(obj.get("ip"@), Seq::empty()) + "\tCountry: "@ + str_or(
                location.get("country_en"@),
                Seq::empty(),
            ) + "\tProvince: "@ + str_or(location.get("province_en"@), Seq::empty())
                + "\tCity: "@ + str_or(location.get("city_en"@), Seq::empty()) + "\n"@;
            host_text(e).len() >= line.len() && host_text(e).subrange(0, line.len() as int)
                == line
        }),
{
    let obj = Json::Object(e);
    let location = obj.at("location"@);
    let line = "IP: "@ + str_or(obj.get("ip"@), Seq::empty()) + "\tCountry: "@ + str_or(
        location.get("country_en"@),
        Seq::empty(),
    ) + "\tProvince: "@ + str_or(location.get("province_en"@), Seq::empty()) + "\tCity: "@
        + str_or(location.get("city_en"@), Seq::empty()) + "\n"@;
    let rest = host_text(e).subrange(line.len() as int, host_text(e).len() as int);
    assert(host_text(e) =~= line + rest);
    assert((line + rest).subrange(0, line.len() as int) =~= line);
}

/// The line of one service of a host: `| `, the port as JSON text, the
/// protocol name and the time (`unknown` removed), each right-aligned in 20
/// columns, separated by tabs.
pub proof fn lemma_service_line(s: Json)
    ensures
        service_line(s) == "| "@ + json_text(s.at("port"@)) + "\t"@ + pad_left(
            str_or(s.get("name"@), Seq::empty()),
            20,
        ) + "\t"@ + pad_left(
            replaced(str_or(s.get("time"@), Seq::empty()), "unknown"@, Seq::empty()),
            20,
        ) + "\n"@,
{
}

/// What each field name of a domain search shows of a record, followed by a
/// tab: `domain` the HTTP host, `title` the HTTP title without quotes, tabs
/// and line breaks, `ip` the address without quotes, `port` the port as
/// JSON text; any other name shows nothing, not even the tab. A line shows
/// the fields one after the other.
pub proof fn lemma_domain_fields(d: Json, other: Seq<char>, fields: Seq<Seq<char>>)
    requires
        other != "domain"@,
        other != "title"@,
        other != "ip"@,
        other != "port"@,
    ensures
        ({
            let http = opt_get(d.get("service"@), "http"@);
            &&& domain_field(d, "domain"@) == str_or(opt_get(http, "host"@), Seq::empty()) + seq![
                '\t',
            ]
            &&& domain_field(d, "title"@) == sanitized(
                str_or(opt_get(http, "title"@), Seq::empty()),
            ) + seq!['\t']
            &&& domain_field(d, "ip"@) == unquoted(str_or(d.get("ip"@), Seq::empty())) + seq![
                '\t',
            ]
            &&& domain_field(d, "port"@) == json_text(d.at("port"@)) + seq!['\t']
            &&& domain_field(d, other) == Seq::<char>::empty()
        }),
        domain_line(d, Seq::empty()) == Seq::<char>::empty(),
        domain_line(d, fields.push(other)) == domain_line(d, fields),
        forall|f: Seq<char>| #[trigger] domain_line(d, fields.push(f)) == domain_line(d, fields) + domain_field(d, f),
{
    reveal_strlit("domain");
    reveal_strlit("title");
    reveal_strlit("ip");
    reveal_strlit("port");
    assert("domain"@.len() == 6 && "title"@.len() == 5 && "ip"@.len() == 2 && "port"@.len() == 4);
    assert forall|f: Seq<char>| #[trigger] domain_line(d, fields.push(f)) == domain_line(d, fields)
        + domain_field(d, f) by {
        assert(fields.push(f).drop_last() =~= fields);
    }
    assert(fields.push(other).drop_last() =~= fields);
    assert(domain_line(d, fields) + Seq::<char>::empty() =~= domain_line(d, fields));
}

/// A honeypot check names the first application the aggregation reports
/// (`data.app[0].key`, `蜜罐` and quotes removed); with none, the system
/// looks real.
pub proof fn lemma_honeypot_names_first_app(response: Json, apps: Seq<Json>)
    requires
        opt_get(response.get("data"@), "app"@) == Some(Json::Array(apps)),
        apps.len() > 0,
    ensures
        honeypot_text(response) == error_line(
            "Looks like a "@ + unquoted(
                replaced(str_or(apps[0].get("key"@), Seq::empty()), "蜜罐"@, Seq::empty()),
            ) + " honeypot system! "@,
        ) + seq!['\n'],
{
}

/// The filters a search sends: the CDN filter exactly where `cdn` is 1, the
/// honeypot filter exactly where `mg` is 1, the invalid-request filter
/// exactly where `wxqq` is 1 and the deduplication filter exactly where
/// `sjqc` is 1; the four are different, each sent at most once, in that
/// order.
pub proof fn lemma_shortcut_flags(cdn: i32, mg: i32, wxqq: i32, sjqc: i32)
    ensures
        shortcut_ids(cdn, mg, wxqq, sjqc).contains(Json::Str(SHORTCUT_CDN@)) <==> cdn == 1,
        shortcut_ids(cdn, mg, wxqq, sjqc).contains(Json::Str(SHORTCUT_MG@)) <==> mg == 1,
        shortcut_ids(cdn, mg, wxqq, sjqc).contains(Json::Str(SHORTCUT_WXQQ@)) <==> wxqq == 1,
        shortcut_ids(cdn, mg, wxqq, sjqc).contains(Json::Str(SHORTCUT_SJQC@)) <==> sjqc == 1,
        forall|i: int|
            0 <= i < shortcut_ids(cdn, mg, wxqq, sjqc).len() ==> {
                let x = #[trigger] shortcut_ids(cdn, mg, wxqq, sjqc)[i];
                x == Json::Str(SHORTCUT_CDN@) || x == Json::Str(SHORTCUT_MG@) || x == Json::Str(
                    SHORTCUT_WXQQ@,
                ) || x == Json::Str(SHORTCUT_SJQC@)
            },
        forall|i: int, j: int|
            0 <= i < j < shortcut_ids(cdn, mg, wxqq, sjqc).len() ==> filter_rank(
                #[trigger] shortcut_ids(cdn, mg, wxqq, sjqc)[i],
            ) < filter_rank(#[trigger] shortcut_ids(cdn, mg, wxqq, sjqc)[j]),
{
    reveal_strlit("612f5a5ad6b3bdb87961727f");
    reveal_strlit("610ce2adb1a2e3e1632e67b1");
    reveal_strlit("62bc12b70537d96695680ce5");
    reveal_strlit("610ce2fbda6d29df72ac56eb");
    assert(SHORTCUT_CDN@[2] != SHORTCUT_MG@[2] && SHORTCUT_CDN@[2] != SHORTCUT_SJQC@[2]);
    assert(SHORTCUT_WXQQ@[1] != SHORTCUT_CDN@[1] && SHORTCUT_WXQQ@[1] != SHORTCUT_MG@[1]
        && SHORTCUT_WXQQ@[1] != SHORTCUT_SJQC@[1]);
    assert(SHORTCUT_MG@[6] != SHORTCUT_SJQC@[6]);
    let ids = shortcut_ids(cdn, mg, wxqq, sjqc);
    let c = Json::Str(SHORTCUT_CDN@);
    let m = Json::Str(SHORTCUT_MG@);
    let w = Json::Str(SHORTCUT_WXQQ@);
    let s = Json::Str(SHORTCUT_SJQC@);
    assert(c != m && c != w && c != s && m != w && m != s && w != s);
    let pc = if cdn == 1 { seq![c] } else { Seq::empty() };
    let pm = if mg == 1 { seq![m] } else { Seq::empty() };
    let pw = if wxqq == 1 { seq![w] } else { Seq::empty() };
    let ps = if sjqc == 1 { seq![s] } else { Seq::empty() };
    assert(ids =~= pc + pm + pw + ps);
    assert(filter_rank(c) == 0 && filter_rank(m) == 1 && filter_rank(w) == 2 && filter_rank(s) == 3);
    if cdn == 1 {
        assert(ids[0] == c);
    }
    if mg == 1 {
        assert(ids[pc.len() as int] == m);
    }
    if wxqq == 1 {
        assert(ids[(pc.len() + pm.len()) as int] == w);
    }
    if sjqc == 1 {
        assert(ids[(pc.len() + pm.len() + pw.len()) as int] == s);
    }
    assert forall|i: int| 0 <= i < ids.len() implies filter_rank(#[trigger] ids[i]) == (if i
        < pc.len() {
        0int
    } else if i < pc.len() + pm.len() {
        1int
    } else if i < pc.len() + pm.len() + pw.len() {
        2int
    } else {
        3int
    }) by {}
}

/// The place of a filter in the order the tool adds them (4 for anything
/// else).
pub open spec fn filter_rank(x: Json) -> int {
    if x == Json::Str(SHORTCUT_CDN@) {
        0
    } else if x == Json::Str(SHORTCUT_MG@) {
        1
    } else if x == Json::Str(SHORTCUT_WXQQ@) {
        2
    } else if x == Json::Str(SHORTCUT_SJQC@) {
        3
    } else {
        4
    }
}

} // verus!
