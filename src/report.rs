use vstd::prelude::*;
use crate::addr::{decimal, int_text};
use crate::connector::{
    bool_text, connector_line, connectors_of, get_connectors, views, Connector, ConnectorView,
};
use crate::error::ParseError;
use crate::json::{lookup, lookup_index, make_string, none_text, str_or_none, text_or_none, Json};

verus! {

/// `n` spaces.
pub open spec fn spaces(n: nat) -> Seq<char> {
    Seq::new(n, |i: int| ' ')
}

/// `s` padded with spaces on the left to at least `w` characters.
pub open spec fn right_justify(s: Seq<char>, w: nat) -> Seq<char> {
    if s.len() < w {
        spaces((w - s.len()) as nat) + s
    } else {
        s
    }
}

/// `s` padded with spaces on the right to at least `w` characters.
pub open spec fn left_justify(s: Seq<char>, w: nat) -> Seq<char> {
    if s.len() < w {
        s + spaces((w - s.len()) as nat)
    } else {
        s
    }
}

/// The JSON string literal for a text, with quotes and escapes.
pub uninterp spec fn json_quoted(s: Seq<char>) -> Seq<char>;

/// Relies on the `Display` of `serde_json::Value` for a string: the text as
/// a JSON string literal, quoted and escaped.
#[verifier::external_body]
fn quote(s: &str) -> (r: String)
    ensures
        r@ == json_quoted(s@),
{
    serde_json::Value::String(String::from(s)).to_string()
}

/// The compact textual form of a JSON value.
pub open spec fn json_text(v: Json) -> Seq<char>
    decreases v,
{
    match v {
        Json::Null => "null"@,
        Json::Bool(b) => bool_text(b),
        Json::Int(n) => int_text(n as int),
        Json::Float(f) => f.text@,
        Json::Str(s) => json_quoted(s@),
        Json::Array(a) => "["@ + items_text(a@) + "]"@,
        Json::Object(o) => "{"@ + entries_text(o@) + "}"@,
    }
}

/// The textual forms of array items, separated by commas.
pub open spec fn items_text(items: Seq<Json>) -> Seq<char>
    decreases items,
{
    if items.len() == 0 {
        Seq::empty()
    } else if items.len() == 1 {
        json_text(items[0])
    } else {
        items_text(items.drop_last()) + ","@ + json_text(items.last())
    }
}

/// The textual forms of object entries, `"key":value`, separated by commas.
pub open spec fn entries_text(es: Seq<(String, Json)>) -> Seq<char>
    decreases es,
{
    if es.len() == 0 {
        Seq::empty()
    } else if es.len() == 1 {
        json_quoted(es[0].0@) + ":"@ + json_text(es[0].1)
    } else {
        entries_text(es.drop_last()) + ","@ + json_quoted(es.last().0@) + ":"@ + json_text(
            es.last().1,
        )
    }
}

/// The compact textual form of a JSON value: `null`, `true`, numbers,
/// quoted strings, `[a,b]`, `{"k":v}`.
pub fn json_to_string(v: &Json) -> (r: String)
    ensures
        r@ == json_text(*v),
    decreases v,
{
    match v {
        Json::Null => String::from_str("null"),
        Json::Bool(b) => {
            if *b {
                String::from_str("true")
            } else {
                String::from_str("false")
            }
        },
        Json::Int(n) => decimal(*n),
        Json::Float(f) => f.text.clone(),
        Json::Str(s) => quote(s.as_str()),
        Json::Array(a) => {
            let mut r = String::from_str("[");
            let mut i: usize = 0;
            while i < a.len()
                invariant
                    0 <= i <= a@.len(),
                    r@ == "["@ + items_text(a@.subrange(0, i as int)),
                    *v == Json::Array(*a),
                decreases a@.len() - i,
            {
                proof {
                    assert(a@.subrange(0, i + 1).drop_last() == a@.subrange(0, i as int));
                    vstd::std_specs::vec::axiom_vec_index_decreases(*a, i as int);
                    assert(decreases_to!(*v => v->Array_0));
                    assert(decreases_to!(*v => a@[i as int]));
                }
                if i > 0 {
                    r.append(",");
                }
                let t = json_to_string(&a[i]);
                r.append(t.as_str());
                proof {
                    if i == 0 {
                        assert(items_text(a@.subrange(0, 1)) == json_text(a@[0]));
                    }
                }
                i = i + 1;
            }
            proof {
                assert(a@.subrange(0, i as int) == a@);
            }
            r.append("]");
            r
        },
        Json::Object(o) => {
            let mut r = String::from_str("{");
            let mut i: usize = 0;
            while i < o.len()
                invariant
                    0 <= i <= o@.len(),
                    r@ == "{"@ + entries_text(o@.subrange(0, i as int)),
                    *v == Json::Object(*o),
                decreases o@.len() - i,
            {
                proof {
                    assert(o@.subrange(0, i + 1).drop_last() == o@.subrange(0, i as int));
                    vstd::std_specs::vec::axiom_vec_index_decreases(*o, i as int);
                    assert(decreases_to!(*v => v->Object_0));
                    assert(decreases_to!(o[i as int] => o[i as int].1));
                    assert(decreases_to!(*v => o@[i as int].1));
                }
                if i > 0 {
                    r.append(",");
                }
                let k = quote(o[i].0.as_str());
                r.append(k.as_str());
                r.append(":");
                let t = json_to_string(&o[i].1);
                r.append(t.as_str());
                proof {
                    if i == 0 {
                        assert(o@.subrange(0, 1)[0] == o@[0]);
                    }
                }
                i = i + 1;
            }
            proof {
                assert(o@.subrange(0, i as int) == o@);
            }
            r.append("}");
            r
        },
    }
}

fn push_spaces(out: &mut String, n: usize)
    ensures
        final(out)@ == old(out)@ + spaces(n as nat),
{
    let ghost start = out@;
    let mut i: usize = 0;
    while i < n
        invariant
            0 <= i <= n,
            out@ == start + spaces(i as nat),
        decreases n - i,
    {
        out.append(" ");
        proof {
            reveal_strlit(" ");
            assert(spaces((i + 1) as nat) == spaces(i as nat) + " "@);
        }
        i = i + 1;
    }
}

/// `s` padded with spaces on the left to at least `w` characters.
pub fn pad_left(s: &str, w: usize) -> (r: String)
    ensures
        r@ == right_justify(s@, w as nat),
{
    let n: usize = s.unicode_len();
    let mut r = String::new();
    if n < w {
        push_spaces(&mut r, w - n);
    }
    r.append(s);
    proof {
        assert(Seq::<char>::empty() + spaces((w - n) as nat) == spaces((w - n) as nat));
        assert(Seq::<char>::empty() + s@ == s@);
    }
    r
}

/// `s` padded with spaces on the right to at least `w` characters.
pub fn pad_right(s: &str, w: usize) -> (r: String)
    ensures
        r@ == left_justify(s@, w as nat),
{
    let n: usize = s.unicode_len();
    let mut r = String::from_str(s);
    if n < w {
        push_spaces(&mut r, w - n);
    }
    r
}

/// The value under `key` in the object stored under `obj` in `fields`.
pub open spec fn sub_field(fields: Seq<(String, Json)>, obj: Seq<char>, key: Seq<char>) -> Option<
    Json,
> {
    match lookup(fields, obj) {
        Some(Json::Object(o)) => lookup(o@, key),
        _ => None,
    }
}

/// The textual form of a value, or the sentinel when it is absent.
pub open spec fn raw_text(v: Option<Json>) -> Seq<char> {
    match v {
        Some(x) => json_text(x),
        None => none_text(),
    }
}

/// The header of the device summary table.
pub open spec fn summary_header() -> Seq<char> {
    "                                    NAME TYPE       PLUGGED REASON     SUMMARY"@
}

/// The header of a connector detail table.
pub open spec fn connector_header() -> Seq<char> {
    "                                    NAME  STATE           EXCEPTION  TIMEOUT  "@
}

/// A device's row of the summary table: name (right-justified to 40),
/// `info.type` (10), `status.plugged` in textual form (7), `status.reason`
/// (10) and `status.summary`.
pub open spec fn summary_line(dev: Seq<char>, fields: Seq<(String, Json)>) -> Seq<char> {
    right_justify(dev, 40) + " "@ + left_justify(
        text_or_none(sub_field(fields, "info"@, "type"@)),
        10,
    ) + " "@ + left_justify(raw_text(sub_field(fields, "status"@, "plugged"@)), 7) + " "@
        + left_justify(text_or_none(sub_field(fields, "status"@, "reason"@)), 10) + " "@
        + text_or_none(sub_field(fields, "status"@, "summary"@))
}

/// A raw connector record's row of the detail table: name (right-justified
/// to 40), state (15), exception (10) and timeout (10).
pub open spec fn raw_row(entry: Seq<(String, Json)>) -> Seq<char> {
    right_justify(text_or_none(lookup(entry, "name"@)), 40) + "  "@ + left_justify(
        text_or_none(lookup(entry, "state"@)),
        15,
    ) + " "@ + left_justify(text_or_none(lookup(entry, "exception"@)), 10) + " "@ + left_justify(
        text_or_none(lookup(entry, "timeout"@)),
        10,
    )
}

/// The rows of the objects among connector-list items.
pub open spec fn raw_rows(items: Seq<Json>) -> Seq<Seq<char>>
    decreases items.len(),
{
    if items.len() == 0 {
        Seq::empty()
    } else {
        raw_rows(items.drop_last()) + match items.last() {
            Json::Object(e) => seq![raw_row(e@)],
            _ => Seq::empty(),
        }
    }
}

/// The detail table of a device's raw connector records: a blank line, a
/// banner and a header when its `connectors` array is not empty, then a row
/// per record.
pub open spec fn raw_table(dev: Seq<char>, fields: Seq<(String, Json)>) -> Seq<Seq<char>> {
    match lookup(fields, "connectors"@) {
        Some(Json::Array(items)) => (if items@.len() > 0 {
            seq![Seq::empty(), "connectors for "@ + dev, connector_header()]
        } else {
            Seq::empty()
        }) + raw_rows(items@),
        _ => Seq::empty(),
    }
}

/// The message for a device whose connectors did not parse.
pub open spec fn error_text(e: ParseError) -> Seq<char> {
    match e {
        ParseError::MissingRequiredField => "a connector has no boolean `enabled`"@,
        ParseError::InvalidAddress => "an address is invalid"@,
        ParseError::MissingDiagnostics => "no `diagnostics` object for a WiFi client"@,
        ParseError::MalformedDocument => "the document is malformed"@,
    }
}

/// The line of a parsed connector in the report.
pub open spec fn typed_line(c: ConnectorView) -> Seq<char> {
    "c="@ + connector_line(c)
}

/// The lines of a device's parsed connectors, or one line that says why
/// they did not parse.
pub open spec fn typed_lines(dev: Seq<char>, fields: Seq<(String, Json)>) -> Seq<Seq<char>> {
    match connectors_of(fields) {
        Ok(cs) => cs.map_values(|c: ConnectorView| typed_line(c)),
        Err(e) => seq!["connectors of "@ + dev + " not parsed: "@ + error_text(e)],
    }
}

/// A device's part of the connector report.
pub open spec fn device_section(dev: Seq<char>, fields: Seq<(String, Json)>) -> Seq<Seq<char>> {
    raw_table(dev, fields) + typed_lines(dev, fields)
}

/// The texts of lines.
pub open spec fn texts(lines: Seq<String>) -> Seq<Seq<char>> {
    lines.map_values(|s: String| s@)
}

/// Moves `line` to the end of `out`.
fn emit(out: &mut Vec<String>, line: String)
    ensures
        texts(final(out)@) == texts(old(out)@).push(line@),
{
    let ghost before = out@;
    let ghost l = line@;
    out.push(line);
    proof {
        assert(texts(out@) =~= texts(before).push(l));
    }
}

/// The value under `key` in the object stored under `obj` in `fields`.
fn sub_field_of<'a>(fields: &'a Vec<(String, Json)>, obj: &str, key: &str) -> (r: Option<&'a Json>)
    ensures
        r matches Some(x) ==> sub_field(fields@, obj@, key@) == Some(*x),
        r is None ==> sub_field(fields@, obj@, key@) == None::<Json>,
{
    match lookup_index(fields, obj) {
        Some(i) => match &fields[i].1 {
            Json::Object(o) => match lookup_index(o, key) {
                Some(j) => Some(&o[j].1),
                None => None,
            },
            _ => None,
        },
        None => None,
    }
}

/// A device's row of the summary table.
pub fn device_summary(dev: &str, fields: &Vec<(String, Json)>) -> (r: String)
    ensures
        r@ == summary_line(dev@, fields@),
{
    let type_ = make_string(sub_field_of(fields, "info", "type"));
    let plugged = match sub_field_of(fields, "status", "plugged") {
        Some(v) => json_to_string(v),
        None => make_string(None),
    };
    let reason = make_string(sub_field_of(fields, "status", "reason"));
    let summary = make_string(sub_field_of(fields, "status", "summary"));
    let mut r = pad_left(dev, 40);
    r.append(" ");
    r.append(pad_right(type_.as_str(), 10).as_str());
    r.append(" ");
    r.append(pad_right(plugged.as_str(), 7).as_str());
    r.append(" ");
    r.append(pad_right(reason.as_str(), 10).as_str());
    r.append(" ");
    r.append(summary.as_str());
    r
}

/// A raw connector record's row of the detail table.
pub fn connector_row(entry: &Vec<(String, Json)>) -> (r: String)
    ensures
        r@ == raw_row(entry@),
{
    let name = str_or_none(entry, "name");
    let state = str_or_none(entry, "state");
    let exception = str_or_none(entry, "exception");
    let timeout = str_or_none(entry, "timeout");
    let mut r = pad_left(name.as_str(), 40);
    r.append("  ");
    r.append(pad_right(state.as_str(), 15).as_str());
    r.append(" ");
    r.append(pad_right(exception.as_str(), 10).as_str());
    r.append(" ");
    r.append(pad_right(timeout.as_str(), 10).as_str());
    r
}

fn error_message(e: ParseError) -> (r: String)
    ensures
        r@ == error_text(e),
{
    match e {
        ParseError::MissingRequiredField => String::from_str("a connector has no boolean `enabled`"),
        ParseError::InvalidAddress => String::from_str("an address is invalid"),
        ParseError::MissingDiagnostics => String::from_str(
            "no `diagnostics` object for a WiFi client",
        ),
        ParseError::MalformedDocument => String::from_str("the document is malformed"),
    }
}

/// Appends a device's part of the connector report to `out`: the detail
/// table of its raw connector records, then a line per parsed connector, or
/// one line that says why its connectors did not parse.
pub fn emit_device_section(out: &mut Vec<String>, dev: &str, fields: &Vec<(String, Json)>)
    ensures
        texts(final(out)@) == texts(old(out)@) + device_section(dev@, fields@),
{
    let ghost start = texts(out@);
    match lookup_index(fields, "connectors") {
        Some(k) => match &fields[k].1 {
            Json::Array(items) => {
                if items.len() > 0 {
                    emit(out, String::new());
                    let mut banner = String::from_str("connectors for ");
                    banner.append(dev);
                    emit(out, banner);
                    emit(
                        out,
                        String::from_str(
                            "                                    NAME  STATE           EXCEPTION  TIMEOUT  ",
                        ),
                    );
                }
                let ghost head = texts(out@);
                proof {
                    assert(head == start + (if items@.len() > 0 {
                        seq![Seq::<char>::empty(), "connectors for "@ + dev@, connector_header()]
                    } else {
                        Seq::<Seq<char>>::empty()
                    }));
                }
                let mut i: usize = 0;
                while i < items.len()
                    invariant
                        0 <= i <= items@.len(),
                        texts(out@) == head + raw_rows(items@.subrange(0, i as int)),
                    decreases items@.len() - i,
                {
                    proof {
                        assert(items@.subrange(0, i + 1).drop_last() == items@.subrange(0, i as int));
                    }
                    match &items[i] {
                        Json::Object(e) => {
                            emit(out, connector_row(e));
                        },
                        _ => {},
                    }
                    proof {
                        assert(texts(out@) == head + raw_rows(items@.subrange(0, i + 1)));
                    }
                    i = i + 1;
                }
                proof {
                    assert(items@.subrange(0, i as int) == items@);
                }
            },
            _ => {},
        },
        None => {},
    }
    proof {
        assert(texts(out@) =~= start + raw_table(dev@, fields@));
    }
    let ghost mid = texts(out@);
    match get_connectors(fields) {
        Ok(cs) => {
            let mut i: usize = 0;
            while i < cs.len()
                invariant
                    0 <= i <= cs@.len(),
                    texts(out@) == mid + views(cs@).subrange(0, i as int).map_values(
                        |c: ConnectorView| typed_line(c),
                    ),
                decreases cs@.len() - i,
            {
                let mut line = String::from_str("c=");
                line.append(cs[i].print().as_str());
                emit(out, line);
                proof {
                    assert(views(cs@).subrange(0, i + 1).map_values(|c: ConnectorView| typed_line(c))
                        =~= views(cs@).subrange(0, i as int).map_values(
                        |c: ConnectorView| typed_line(c),
                    ).push(typed_line(cs@[i as int]@)));
                }
                i = i + 1;
            }
            proof {
                assert(views(cs@).subrange(0, i as int) =~= views(cs@));
            }
        },
        Err(e) => {
            let mut line = String::from_str("connectors of ");
            line.append(dev);
            line.append(" not parsed: ");
            line.append(error_message(e).as_str());
            emit(out, line);
            proof {
                assert(seq![Seq::<char>::empty()] + Seq::<Seq<char>>::empty() =~= seq![Seq::<char>::empty()]);
            }
        },
    }
    proof {
        assert(texts(out@) =~= start + device_section(dev@, fields@));
    }
}

/// The `success` field of a status document.
pub open spec fn success_of(doc: Json) -> Option<Json> {
    match doc {
        Json::Object(top) => lookup(top@, "success"@),
        _ => None,
    }
}

/// The entries of a status document's `data.devices` object.
pub open spec fn devices_of(doc: Json) -> Option<Seq<(String, Json)>> {
    match doc {
        Json::Object(top) => match sub_field(top@, "data"@, "devices"@) {
            Some(Json::Object(devs)) => Some(devs@),
            _ => None,
        },
        _ => None,
    }
}

/// Whether every device is described by an object.
pub open spec fn all_objects(devs: Seq<(String, Json)>) -> bool {
    forall|i: int| 0 <= i < devs.len() ==> #[trigger] devs[i].1 is Object
}

/// The fields of a device's object (empty for any other value).
pub open spec fn fields_of(v: Json) -> Seq<(String, Json)> {
    match v {
        Json::Object(f) => f@,
        _ => Seq::empty(),
    }
}

/// The summary rows of the devices, in order.
pub open spec fn summaries(devs: Seq<(String, Json)>) -> Seq<Seq<char>>
    decreases devs.len(),
{
    if devs.len() == 0 {
        Seq::empty()
    } else {
        summaries(devs.drop_last()).push(summary_line(devs.last().0@, fields_of(devs.last().1)))
    }
}

/// The connector sections of the devices, in order.
pub open spec fn sections(devs: Seq<(String, Json)>) -> Seq<Seq<char>>
    decreases devs.len(),
{
    if devs.len() == 0 {
        Seq::empty()
    } else {
        sections(devs.drop_last()) + device_section(devs.last().0@, fields_of(devs.last().1))
    }
}

/// The first line of a report: the textual form of `success`.
pub open spec fn success_line(doc: Json) -> Seq<char> {
    "success="@ + match success_of(doc) {
        Some(v) => json_text(v),
        None => "null"@,
    }
}

/// The report on a status document: the `success` line; then, when it
/// failed, a notice; else the summary table of every device followed by
/// each device's connector section. `None` when `success` is not a boolean
/// or, on success, the devices are not an object of objects.
pub open spec fn report_of(doc: Json) -> Option<Seq<Seq<char>>> {
    match success_of(doc) {
        Some(Json::Bool(false)) => Some(seq![success_line(doc), "transaction failed"@]),
        Some(Json::Bool(true)) => match devices_of(doc) {
            Some(devs) => if all_objects(devs) {
                Some(
                    seq![success_line(doc), summary_header()] + summaries(devs) + sections(devs),
                )
            } else {
                None
            },
            None => None,
        },
        _ => None,
    }
}

/// Renders the report on a status document, line by line.
pub fn wan_report(doc: &Json) -> (r: Result<Vec<String>, ParseError>)
    ensures
        match r {
            Ok(lines) => report_of(*doc) == Some(texts(lines@)),
            Err(e) => report_of(*doc) == None::<Seq<Seq<char>>> && e
                == ParseError::MalformedDocument,
        },
{
    let top = match doc {
        Json::Object(top) => top,
        _ => {
            return Err(ParseError::MalformedDocument);
        },
    };
    let mut out: Vec<String> = Vec::new();
    let success = match lookup_index(top, "success") {
        Some(i) => &top[i].1,
        None => {
            return Err(ParseError::MalformedDocument);
        },
    };
    let mut first = String::from_str("success=");
    first.append(json_to_string(success).as_str());
    let ok = match success {
        Json::Bool(b) => *b,
        _ => {
            return Err(ParseError::MalformedDocument);
        },
    };
    proof {
        assert(texts(out@) == Seq::<Seq<char>>::empty());
    }
    emit(&mut out, first);
    if !ok {
        emit(&mut out, String::from_str("transaction failed"));
        proof {
            assert(texts(out@) =~= seq![success_line(*doc), "transaction failed"@]);
        }
        return Ok(out);
    }
    let devs = match sub_field_of(top, "data", "devices") {
        Some(Json::Object(devs)) => devs,
        _ => {
            return Err(ParseError::MalformedDocument);
        },
    };
    let mut i: usize = 0;
    while i < devs.len()
        invariant
            0 <= i <= devs@.len(),
            success_of(*doc) == Some(Json::Bool(true)),
            devices_of(*doc) == Some(devs@),
            forall|j: int| 0 <= j < i ==> #[trigger] devs@[j].1 is Object,
        decreases devs@.len() - i,
    {
        match &devs[i].1 {
            Json::Object(_) => {},
            _ => {
                proof {
                    assert(!(devs@[i as int].1 is Object));
                    assert(!all_objects(devs@));
                }
                return Err(ParseError::MalformedDocument);
            },
        }
        i = i + 1;
    }
    emit(
        &mut out,
        String::from_str(
            "                                    NAME TYPE       PLUGGED REASON     SUMMARY",
        ),
    );
    let ghost head = texts(out@);
    let mut i: usize = 0;
    while i < devs.len()
        invariant
            0 <= i <= devs@.len(),
            success_of(*doc) == Some(Json::Bool(true)),
            devices_of(*doc) == Some(devs@),
            all_objects(devs@),
            texts(out@) == head + summaries(devs@.subrange(0, i as int)),
        decreases devs@.len() - i,
    {
        proof {
            assert(devs@.subrange(0, i + 1).drop_last() == devs@.subrange(0, i as int));
        }
        match &devs[i].1 {
            Json::Object(fields) => {
                emit(&mut out, device_summary(devs[i].0.as_str(), fields));
            },
            _ => {},
        }
        i = i + 1;
    }
    proof {
        assert(devs@.subrange(0, i as int) == devs@);
    }
    let ghost mid = texts(out@);
    let mut i: usize = 0;
    while i < devs.len()
        invariant
            0 <= i <= devs@.len(),
            success_of(*doc) == Some(Json::Bool(true)),
            devices_of(*doc) == Some(devs@),
            all_objects(devs@),
            texts(out@) == mid + sections(devs@.subrange(0, i as int)),
        decreases devs@.len() - i,
    {
        proof {
            assert(devs@.subrange(0, i + 1).drop_last() == devs@.subrange(0, i as int));
        }
        match &devs[i].1 {
            Json::Object(fields) => {
                emit_device_section(&mut out, devs[i].0.as_str(), fields);
            },
            _ => {},
        }
        proof {
            assert(texts(out@) =~= mid + sections(devs@.subrange(0, i + 1)));
        }
        i = i + 1;
    }
    proof {
        assert(devs@.subrange(0, i as int) == devs@);
        assert(texts(out@) =~= seq![success_line(*doc), summary_header()] + summaries(devs@)
            + sections(devs@));
    }
    Ok(out)
}

proof fn lemma_sections_append(a: Seq<(String, Json)>, b: Seq<(String, Json)>)
    ensures
        sections(a + b) == sections(a) + sections(b),
    decreases b.len(),
{
    if b.len() == 0 {
        assert(a + b == a);
        assert(sections(a) + sections(b) == sections(a));
    } else {
        lemma_sections_append(a, b.drop_last());
        assert((a + b).drop_last() == a + b.drop_last());
        assert((a + b).last() == b.last());
    }
}

/// A device's connectors, even ones that fail to parse, never keep the
/// report on a successful document with well-formed devices from being
/// produced, and each device's own section stands in it whole.
pub proof fn lemma_failures_stay_local(doc: Json, i: int)
    requires
        success_of(doc) == Some(Json::Bool(true)),
        devices_of(doc) matches Some(devs) && all_objects(devs) && 0 <= i < devs.len(),
    ensures
        report_of(doc) matches Some(lines) && exists|pre: Seq<Seq<char>>, post: Seq<Seq<char>>|
            lines == pre + device_section(
                devices_of(doc)->Some_0[i].0@,
                fields_of(devices_of(doc)->Some_0[i].1),
            ) + post,
{
    let devs = devices_of(doc)->Some_0;
    let front = devs.subrange(0, i + 1);
    let back = devs.subrange(i + 1, devs.len() as int);
    assert(devs == front + back);
    lemma_sections_append(front, back);
    assert(front.drop_last() == devs.subrange(0, i));
    let sec = device_section(devs[i].0@, fields_of(devs[i].1));
    let pre = seq![success_line(doc), summary_header()] + summaries(devs) + sections(
        devs.subrange(0, i),
    );
    let post = sections(back);
    assert(report_of(doc)->Some_0 == pre + sec + post);
}

} // verus!
