//! Formatting of result rows: tab-, line- and NUL-separated text, CSV,
//! JSON and HTML. The formatters produce the text; writing it is left to
//! the caller.

use vstd::prelude::*;

use crate::query::OutputFormat;
use crate::strings::{push_char, push_str, str_eq, str_to_string};

verus! {

/// The decimal digits of a number.
pub open spec fn decimal(n: nat) -> Seq<char>
    decreases n,
{
    if n < 10 {
        seq![(('0' as u32) + n) as char]
    } else {
        decimal(n / 10).push((('0' as u32) + (n % 10)) as char)
    }
}

fn push_decimal(s: &mut String, n: usize)
    ensures
        final(s)@ == old(s)@ + decimal(n as nat),
    decreases n,
{
    if n >= 10 {
        push_decimal(s, n / 10);
    }
    let d: u8 = (n % 10) as u8;
    let c = (d + 48) as char;
    assert(c == (('0' as u32) + (n as nat % 10)) as char);
    push_char(s, c);
    assert(n < 10 ==> n as nat % 10 == n as nat);
}

/// The HTML-escaped form of one character.
pub open spec fn escape_char(c: char) -> Seq<char> {
    if c == '&' {
        "&amp;"@
    } else if c == '<' {
        "&lt;"@
    } else if c == '>' {
        "&gt;"@
    } else if c == '"' {
        "&quot;"@
    } else {
        seq![c]
    }
}

/// A text with `&`, `<`, `>` and `"` replaced by their HTML entities.
pub open spec fn spec_escape_html(s: Seq<char>) -> Seq<char>
    decreases s.len(),
{
    if s.len() == 0 {
        Seq::empty()
    } else {
        spec_escape_html(s.drop_last()) + escape_char(s.last())
    }
}

/// Replaces `&`, `<`, `>` and `"` by their HTML entities.
pub fn escape_html(s: &str) -> (r: String)
    ensures
        r@ == spec_escape_html(s@),
{
    let n = s.unicode_len();
    let mut result = String::new();
    let mut i: usize = 0;
    while i < n
        invariant
            n == s@.len(),
            i <= n,
            result@ == spec_escape_html(s@.take(i as int)),
        decreases n - i,
    {
        let c = s.get_char(i);
        if c == '&' {
            push_str(&mut result, "&amp;");
        } else if c == '<' {
            push_str(&mut result, "&lt;");
        } else if c == '>' {
            push_str(&mut result, "&gt;");
        } else if c == '"' {
            push_str(&mut result, "&quot;");
        } else {
            push_char(&mut result, c);
            assert(result@ =~= spec_escape_html(s@.take(i as int)) + seq![c]);
        }
        assert(s@.take(i + 1).drop_last() =~= s@.take(i as int));
        i = i + 1;
    }
    assert(s@.take(n as int) =~= s@);
    result
}

/// The text one CSV record takes, terminator included, as the `csv` crate's
/// writer with default settings (comma, double quote, quoting only where
/// needed, `\n`) produces it.
pub uninterp spec fn csv_record_text(fields: Seq<Seq<char>>) -> Seq<char>;

/// The compact JSON text of an object of string members, as `serde_json`
/// writes a sorted map: members in ascending key order.
pub uninterp spec fn json_object_text(members: Map<Seq<char>, Seq<char>>) -> Seq<char>;

pub open spec fn texts(v: Seq<String>) -> Seq<Seq<char>> {
    Seq::new(v.len(), |i: int| v[i]@)
}

/// Writes one record with `csv::Writer::write_record` into an in-memory
/// buffer and returns the buffer as text. The result is named by
/// `csv_record_text` over the fields' texts; writing into memory cannot fail
/// and the fields are valid UTF-8, so the buffer converts without loss.
#[verifier::external_body]
fn csv_write_record(records: &Vec<String>) -> (r: String)
    ensures
        r@ == csv_record_text(texts(records@)),
{
    let mut writer = csv::Writer::from_writer(Vec::new());
    match writer.write_record(records) {
        Ok(()) => {},
        Err(_) => return String::new(),
    }
    match writer.into_inner() {
        Ok(bytes) => String::from_utf8_lossy(&bytes).into_owned(),
        Err(_) => String::new(),
    }
}

/// The object whose members the entries give; entries carry distinct keys.
pub open spec fn entries_map(v: Seq<(String, String)>) -> Map<Seq<char>, Seq<char>> {
    Map::new(
        |k: Seq<char>| exists|i: int| 0 <= i < v.len() && #[trigger] v[i].0@ == k,
        |k: Seq<char>| v[choose|i: int| 0 <= i < v.len() && #[trigger] v[i].0@ == k].1@,
    )
}

pub open spec fn keys_distinct(v: Seq<(String, String)>) -> bool {
    forall|i: int, j: int| 0 <= i < v.len() && 0 <= j < v.len() && i != j ==> #[trigger] v[i].0@ != #[trigger] v[j].0@
}

/// Calls `serde_json::to_string` on the entries gathered into a
/// `BTreeMap<String, String>` (keys are distinct, so no entry is lost). The
/// result is named by `json_object_text`; serialising a map with string keys
/// and string values does not fail.
#[verifier::external_body]
fn json_object(entries: &Vec<(String, String)>) -> (r: String)
    requires
        keys_distinct(entries@),
    ensures
        r@ == json_object_text(entries_map(entries@)),
{
    let map: std::collections::BTreeMap<&String, &String> = entries.iter().map(|(k, v)| (k, v)).collect();
    match serde_json::to_string(&map) {
        Ok(s) => s,
        Err(_) => String::new(),
    }
}

pub trait ResultsFormatter {
    fn header(&mut self, raw_query: &str, col_count: usize) -> Option<String>;

    fn row_started(&mut self) -> Option<String>;

    fn format_element(&mut self, name: &str, record: &str, is_last: bool) -> Option<String>;

    fn row_ended(&mut self) -> Option<String>;

    fn footer(&mut self) -> Option<String>;

    fn row_separator(&self) -> Option<String>;
}

pub open spec fn opt_text(o: Option<String>) -> Option<Seq<char>> {
    match o {
        Some(s) => Some(s@),
        None => None,
    }
}

/// Writes each value followed by a separator (none after the last one of a
/// row) and ends every row with the line separator.
pub struct FlatWriter {
    pub record_separator: char,
    pub line_separator: Option<char>,
}

/// One value per line.
pub fn lines_formatter() -> (r: FlatWriter)
    ensures
        r.record_separator == '\n',
        r.line_separator == Some('\n'),
{
    FlatWriter { record_separator: '\n', line_separator: Some('\n') }
}

/// Everything NUL-separated, for `xargs -0`.
pub fn list_formatter() -> (r: FlatWriter)
    ensures
        r.record_separator == '\0',
        r.line_separator == Some('\0'),
{
    FlatWriter { record_separator: '\0', line_separator: Some('\0') }
}

/// Values separated by tabs, one row per line.
pub fn tabs_formatter() -> (r: FlatWriter)
    ensures
        r.record_separator == '\t',
        r.line_separator == Some('\n'),
{
    FlatWriter { record_separator: '\t', line_separator: Some('\n') }
}

impl ResultsFormatter for FlatWriter {
    fn header(&mut self, raw_query: &str, col_count: usize) -> (r: Option<String>)
        ensures
            r is None,
            *final(self) == *old(self),
    {
        None
    }

    fn row_started(&mut self) -> (r: Option<String>)
        ensures
            r is None,
            *final(self) == *old(self),
    {
        None
    }

    fn format_element(&mut self, name: &str, record: &str, is_last: bool) -> (r: Option<String>)
        ensures
            opt_text(r) == Some(
                if is_last {
                    record@
                } else {
                    record@.push(old(self).record_separator)
                },
            ),
            *final(self) == *old(self),
    {
        let mut s = str_to_string(record);
        if !is_last {
            push_char(&mut s, self.record_separator);
        }
        Some(s)
    }

    fn row_ended(&mut self) -> (r: Option<String>)
        ensures
            opt_text(r) == match old(self).line_separator {
                Some(c) => Some(seq![c]),
                None => None::<Seq<char>>,
            },
            *final(self) == *old(self),
    {
        match self.line_separator {
            Some(c) => {
                let mut s = String::new();
                push_char(&mut s, c);
                assert(s@ =~= seq![c]);
                Some(s)
            },
            None => None,
        }
    }

    fn footer(&mut self) -> (r: Option<String>)
        ensures
            r is None,
            *final(self) == *old(self),
    {
        None
    }

    fn row_separator(&self) -> (r: Option<String>)
        ensures
            r is None,
    {
        None
    }
}

/// Gathers the values of a row and writes them as one CSV record.
pub struct CsvFormatter {
    pub records: Vec<String>,
}

impl CsvFormatter {
    pub fn new() -> (r: CsvFormatter)
        ensures
            r.records@.len() == 0,
    {
        CsvFormatter { records: Vec::new() }
    }
}

impl ResultsFormatter for CsvFormatter {
    fn header(&mut self, raw_query: &str, col_count: usize) -> (r: Option<String>)
        ensures
            r is None,
            final(self).records@ == old(self).records@,
    {
        None
    }

    fn row_started(&mut self) -> (r: Option<String>)
        ensures
            r is None,
            final(self).records@ == old(self).records@,
    {
        None
    }

    fn format_element(&mut self, name: &str, record: &str, is_last: bool) -> (r: Option<String>)
        ensures
            r is None,
            texts(final(self).records@) == texts(old(self).records@).push(record@),
    {
        self.records.push(str_to_string(record));
        assert(texts(self.records@) =~= texts(old(self).records@).push(record@));
        None
    }

    fn row_ended(&mut self) -> (r: Option<String>)
        ensures
            opt_text(r) == Some(csv_record_text(texts(old(self).records@))),
            final(self).records@.len() == 0,
    {
        let result = csv_write_record(&self.records);
        self.records.clear();
        Some(result)
    }

    fn footer(&mut self) -> (r: Option<String>)
        ensures
            r is None,
            final(self).records@ == old(self).records@,
    {
        None
    }

    fn row_separator(&self) -> (r: Option<String>)
        ensures
            r is None,
    {
        None
    }
}

/// Gathers the values of a row by column name and writes each row as a
/// JSON object inside one array.
pub struct JsonFormatter {
    pub file_map: Vec<(String, String)>,
}

impl JsonFormatter {
    pub open spec fn wf(&self) -> bool {
        keys_distinct(self.file_map@)
    }

    pub open spec fn members(&self) -> Map<Seq<char>, Seq<char>> {
        entries_map(self.file_map@)
    }

    pub fn new() -> (r: JsonFormatter)
        ensures
            r.wf(),
            r.members() == Map::<Seq<char>, Seq<char>>::empty(),
    {
        let r = JsonFormatter { file_map: Vec::new() };
        assert(r.members() =~= Map::<Seq<char>, Seq<char>>::empty());
        r
    }

    /// Sets a member, replacing the value of an existing key.
    fn insert(&mut self, name: &str, record: &str)
        requires
            old(self).wf(),
        ensures
            final(self).wf(),
            final(self).members() == old(self).members().insert(name@, record@),
    {
        let ghost old_map = self.file_map@;
        let mut i: usize = 0;
        while i < self.file_map.len()
            invariant
                i <= self.file_map@.len(),
                self.file_map@ == old_map,
                old_map == old(self).file_map@,
                keys_distinct(old_map),
                forall|j: int| 0 <= j < i ==> #[trigger] self.file_map@[j].0@ != name@,
            decreases self.file_map@.len() - i,
        {
            if str_eq(self.file_map[i].0.as_str(), name) {
                let entry = (str_to_string(name), str_to_string(record));
                self.file_map.set(i, entry);
                proof {
                    let nv = self.file_map@;
                    assert forall|a: int, b: int| 0 <= a < nv.len() && 0 <= b < nv.len() && a != b implies #[trigger] nv[a].0@ != #[trigger] nv[b].0@ by {
                        if a == i {
                            assert(old_map[b].0@ != old_map[i as int].0@);
                        } else if b == i {
                            assert(old_map[a].0@ != old_map[i as int].0@);
                        } else {
                            assert(old_map[a].0@ != old_map[b].0@);
                        }
                    }
                    let m = entries_map(nv);
                    let om = entries_map(old_map).insert(name@, record@);
                    assert forall|k: Seq<char>| m.dom().contains(k) <==> om.dom().contains(k) by {
                        if m.dom().contains(k) {
                            let a = choose|a: int| 0 <= a < nv.len() && #[trigger] nv[a].0@ == k;
                            if a != i {
                                assert(old_map[a].0@ == k);
                            }
                        }
                        if om.dom().contains(k) && k != name@ {
                            let a = choose|a: int| 0 <= a < old_map.len() && #[trigger] old_map[a].0@ == k;
                            assert(nv[a].0@ == k);
                        }
                        if k == name@ {
                            assert(nv[i as int].0@ == k);
                        }
                    }
                    assert forall|k: Seq<char>| m.dom().contains(k) implies m[k] == om[k] by {
                        let a = choose|a: int| 0 <= a < nv.len() && #[trigger] nv[a].0@ == k;
                        if k == name@ {
                            assert(a == i);
                        } else {
                            let b = choose|b: int| 0 <= b < old_map.len() && #[trigger] old_map[b].0@ == k;
                            assert(a == b);
                        }
                    }
                    assert(m =~= om);
                    assert(self.members() == entries_map(old_map).insert(name@, record@));
                    assert(old_map == old(self).file_map@);
                }
                return;
            }
            i = i + 1;
        }
        self.file_map.push((str_to_string(name), str_to_string(record)));
        proof {
            let nv = self.file_map@;
            let n = old_map.len() as int;
            assert forall|a: int, b: int| 0 <= a < nv.len() && 0 <= b < nv.len() && a != b implies #[trigger] nv[a].0@ != #[trigger] nv[b].0@ by {
                if a < n && b < n {
                    assert(old_map[a].0@ != old_map[b].0@);
                }
            }
            let m = entries_map(nv);
            let om = entries_map(old_map).insert(name@, record@);
            assert forall|k: Seq<char>| m.dom().contains(k) <==> om.dom().contains(k) by {
                if m.dom().contains(k) {
                    let a = choose|a: int| 0 <= a < nv.len() && #[trigger] nv[a].0@ == k;
                    if a < n {
                        assert(old_map[a].0@ == k);
                    }
                }
                if om.dom().contains(k) && k != name@ {
                    let a = choose|a: int| 0 <= a < old_map.len() && #[trigger] old_map[a].0@ == k;
                    assert(nv[a].0@ == k);
                }
                if k == name@ {
                    assert(nv[n].0@ == k);
                }
            }
            assert forall|k: Seq<char>| m.dom().contains(k) implies m[k] == om[k] by {
                let a = choose|a: int| 0 <= a < nv.len() && #[trigger] nv[a].0@ == k;
                if k == name@ {
                    assert(a == n);
                } else {
                    let b = choose|b: int| 0 <= b < old_map.len() && #[trigger] old_map[b].0@ == k;
                    assert(nv[b].0@ == k);
                    assert(a == b);
                }
            }
            assert(m =~= om);
        }
    }
}

impl ResultsFormatter for JsonFormatter {
    fn header(&mut self, raw_query: &str, col_count: usize) -> (r: Option<String>)
        ensures
            opt_text(r) == Some("["@),
            final(self).file_map@ == old(self).file_map@,
    {
        Some(str_to_string("["))
    }

    fn row_started(&mut self) -> (r: Option<String>)
        ensures
            r is None,
            final(self).file_map@ == old(self).file_map@,
    {
        None
    }

    fn format_element(&mut self, name: &str, record: &str, is_last: bool) -> (r: Option<String>)
        ensures
            r is None,
            old(self).wf() ==> final(self).wf() && final(self).members() == old(self).members().insert(name@, record@),
    {
        if keys_are_distinct(&self.file_map) {
            self.insert(name, record);
        }
        None
    }

    fn row_ended(&mut self) -> (r: Option<String>)
        ensures
            old(self).wf() ==> opt_text(r) == Some(json_object_text(old(self).members())),
            final(self).file_map@.len() == 0,
            final(self).wf(),
            final(self).members() == Map::<Seq<char>, Seq<char>>::empty(),
    {
        let result = if keys_are_distinct(&self.file_map) {
            json_object(&self.file_map)
        } else {
            String::new()
        };
        self.file_map.clear();
        assert(self.members() =~= Map::<Seq<char>, Seq<char>>::empty());
        Some(result)
    }

    fn footer(&mut self) -> (r: Option<String>)
        ensures
            opt_text(r) == Some("]"@),
            final(self).file_map@ == old(self).file_map@,
    {
        Some(str_to_string("]"))
    }

    fn row_separator(&self) -> (r: Option<String>)
        ensures
            opt_text(r) == Some(","@),
    {
        Some(str_to_string(","))
    }
}

/// Whether the entries carry distinct keys.
fn keys_are_distinct(v: &Vec<(String, String)>) -> (r: bool)
    ensures
        r == keys_distinct(v@),
{
    let mut i: usize = 0;
    while i < v.len()
        invariant
            i <= v@.len(),
            forall|a: int, b: int| 0 <= a < i && 0 <= b < v@.len() && a != b ==> #[trigger] v@[a].0@ != #[trigger] v@[b].0@,
        decreases v@.len() - i,
    {
        let mut j: usize = 0;
        while j < v.len()
            invariant
                i < v@.len(),
                j <= v@.len(),
                forall|a: int, b: int| 0 <= a < i && 0 <= b < v@.len() && a != b ==> #[trigger] v@[a].0@ != #[trigger] v@[b].0@,
                forall|b: int| 0 <= b < j && b != i ==> v@[i as int].0@ != #[trigger] v@[b].0@,
            decreases v@.len() - j,
        {
            if j != i && str_eq(v[i].0.as_str(), v[j].0.as_str()) {
                return false;
            }
            j = j + 1;
        }
        i = i + 1;
    }
    true
}

/// An HTML page holding a table with one row per result.
pub struct HtmlFormatter;

/// The page head: the escaped query as title and as a header cell spanning
/// all columns.
pub open spec fn html_header(raw_query: Seq<char>, col_count: nat) -> Seq<char> {
    let e = spec_escape_html(raw_query);
    "<html><head><title>"@ + e + "</title></head><body><table><tr><th colspan=\""@ + decimal(col_count)
        + "\">"@ + e + "</th></tr>"@
}

impl ResultsFormatter for HtmlFormatter {
    fn header(&mut self, raw_query: &str, col_count: usize) -> (r: Option<String>)
        ensures
            opt_text(r) == Some(html_header(raw_query@, col_count as nat)),
    {
        let escaped = escape_html(raw_query);
        let mut s = str_to_string("<html><head><title>");
        push_str(&mut s, escaped.as_str());
        push_str(&mut s, "</title></head><body><table><tr><th colspan=\"");
        push_decimal(&mut s, col_count);
        push_str(&mut s, "\">");
        push_str(&mut s, escaped.as_str());
        push_str(&mut s, "</th></tr>");
        Some(s)
    }

    fn row_started(&mut self) -> (r: Option<String>)
        ensures
            opt_text(r) == Some("<tr>"@),
    {
        Some(str_to_string("<tr>"))
    }

    fn format_element(&mut self, name: &str, record: &str, is_last: bool) -> (r: Option<String>)
        ensures
            opt_text(r) == Some("<td>"@ + spec_escape_html(record@) + "</td>"@),
    {
        let mut s = str_to_string("<td>");
        let e = escape_html(record);
        push_str(&mut s, e.as_str());
        push_str(&mut s, "</td>");
        Some(s)
    }

    fn row_ended(&mut self) -> (r: Option<String>)
        ensures
            opt_text(r) == Some("</tr>"@),
    {
        Some(str_to_string("</tr>"))
    }

    fn footer(&mut self) -> (r: Option<String>)
        ensures
            opt_text(r) == Some("</table></body></html>"@),
    {
        Some(str_to_string("</table></body></html>"))
    }

    fn row_separator(&self) -> (r: Option<String>)
        ensures
            r is None,
    {
        None
    }
}

/// The formatter that an output format uses.
pub enum Formatter {
    Flat(FlatWriter),
    Csv(CsvFormatter),
    Json(JsonFormatter),
    Html(HtmlFormatter),
}

/// Chooses the formatter for an output format.
pub fn select_formatter(format: &OutputFormat) -> (r: Formatter)
    ensures
        match *format {
            OutputFormat::Tabs => r matches Formatter::Flat(f) && f.record_separator == '\t'
                && f.line_separator == Some('\n'),
            OutputFormat::Lines => r matches Formatter::Flat(f) && f.record_separator == '\n'
                && f.line_separator == Some('\n'),
            OutputFormat::List => r matches Formatter::Flat(f) && f.record_separator == '\0'
                && f.line_separator == Some('\0'),
            OutputFormat::Csv => r matches Formatter::Csv(f) && f.records@.len() == 0,
            OutputFormat::Json => r matches Formatter::Json(f) && f.wf() && f.members()
                == Map::<Seq<char>, Seq<char>>::empty(),
            OutputFormat::Html => r is Html,
        },
{
    match format {
        OutputFormat::Tabs => Formatter::Flat(tabs_formatter()),
        OutputFormat::Lines => Formatter::Flat(lines_formatter()),
        OutputFormat::List => Formatter::Flat(list_formatter()),
        OutputFormat::Csv => Formatter::Csv(CsvFormatter::new()),
        OutputFormat::Json => Formatter::Json(JsonFormatter::new()),
        OutputFormat::Html => Formatter::Html(HtmlFormatter),
    }
}

/// Turns result rows into text in one output format.
pub struct ResultsWriter {
    pub formatter: Formatter,
}

/// The formatter is left as it was: the same separators for the flat
/// formats, the same gathered values for CSV and JSON.
pub open spec fn keeps_state(before: Formatter, after: Formatter) -> bool {
    match before {
        Formatter::Flat(f) => after == Formatter::Flat(f),
        Formatter::Csv(f) => after matches Formatter::Csv(g) && g.records@ == f.records@,
        Formatter::Json(f) => after matches Formatter::Json(g) && g.file_map@ == f.file_map@,
        Formatter::Html(_) => after is Html,
    }
}

/// The formatter after a row: the same kind, holding nothing of the row.
pub open spec fn row_finished(before: Formatter, after: Formatter) -> bool {
    match before {
        Formatter::Flat(f) => after == Formatter::Flat(f),
        Formatter::Csv(_) => after matches Formatter::Csv(g) && g.records@.len() == 0,
        Formatter::Json(_) => after matches Formatter::Json(g) && g.file_map@.len() == 0 && g.wf()
            && g.members() == Map::<Seq<char>, Seq<char>>::empty(),
        Formatter::Html(_) => after is Html,
    }
}

pub open spec fn or_empty(o: Option<String>) -> Seq<char> {
    match o {
        Some(s) => s@,
        None => Seq::empty(),
    }
}

impl ResultsWriter {
    pub fn new(format: &OutputFormat) -> (r: ResultsWriter)
        ensures
            match *format {
                OutputFormat::Tabs => r.formatter matches Formatter::Flat(f) && f.record_separator == '\t'
                    && f.line_separator == Some('\n'),
                OutputFormat::Lines => r.formatter matches Formatter::Flat(f) && f.record_separator == '\n'
                    && f.line_separator == Some('\n'),
                OutputFormat::List => r.formatter matches Formatter::Flat(f) && f.record_separator == '\0'
                    && f.line_separator == Some('\0'),
                OutputFormat::Csv => r.formatter matches Formatter::Csv(f) && f.records@.len() == 0,
                OutputFormat::Json => r.formatter matches Formatter::Json(f) && f.wf() && f.members()
                    == Map::<Seq<char>, Seq<char>>::empty(),
                OutputFormat::Html => r.formatter is Html,
            },
    {
        ResultsWriter { formatter: select_formatter(format) }
    }

    fn push_opt(s: &mut String, o: Option<String>)
        ensures
            final(s)@ == old(s)@ + or_empty(o),
    {
        match o {
            Some(t) => push_str(s, t.as_str()),
            None => {
                assert(old(s)@ + Seq::<char>::empty() =~= old(s)@);
            },
        }
    }

    /// The text that opens the output (the JSON `[`, the HTML page head).
    pub fn write_header(&mut self, raw_query: &str, col_count: usize) -> (r: String)
        ensures
            r@ == match old(self).formatter {
                Formatter::Json(_) => "["@,
                Formatter::Html(_) => html_header(raw_query@, col_count as nat),
                _ => Seq::<char>::empty(),
            },
            keeps_state(old(self).formatter, final(self).formatter),
    {
        let mut s = String::new();
        let o = match &mut self.formatter {
            Formatter::Flat(f) => f.header(raw_query, col_count),
            Formatter::Csv(f) => f.header(raw_query, col_count),
            Formatter::Json(f) => f.header(raw_query, col_count),
            Formatter::Html(f) => f.header(raw_query, col_count),
        };
        Self::push_opt(&mut s, o);
        assert(Seq::<char>::empty() + or_empty(o) =~= or_empty(o));
        s
    }

    /// The text written between two rows (the JSON `,`).
    pub fn write_row_separator(&mut self) -> (r: String)
        ensures
            r@ == match old(self).formatter {
                Formatter::Json(_) => ","@,
                _ => Seq::<char>::empty(),
            },
            final(self).formatter == old(self).formatter,
    {
        let mut s = String::new();
        let o = match &self.formatter {
            Formatter::Flat(f) => f.row_separator(),
            Formatter::Csv(f) => f.row_separator(),
            Formatter::Json(f) => f.row_separator(),
            Formatter::Html(f) => f.row_separator(),
        };
        Self::push_opt(&mut s, o);
        assert(Seq::<char>::empty() + or_empty(o) =~= or_empty(o));
        s
    }

    /// The text that closes the output (the JSON `]`, the HTML page end).
    pub fn write_footer(&mut self) -> (r: String)
        ensures
            r@ == match old(self).formatter {
                Formatter::Json(_) => "]"@,
                Formatter::Html(_) => "</table></body></html>"@,
                _ => Seq::<char>::empty(),
            },
            keeps_state(old(self).formatter, final(self).formatter),
    {
        let mut s = String::new();
        let o = match &mut self.formatter {
            Formatter::Flat(f) => f.footer(),
            Formatter::Csv(f) => f.footer(),
            Formatter::Json(f) => f.footer(),
            Formatter::Html(f) => f.footer(),
        };
        Self::push_opt(&mut s, o);
        assert(Seq::<char>::empty() + or_empty(o) =~= or_empty(o));
        s
    }

    fn write_row_start(&mut self) -> (r: Option<String>)
        ensures
            match old(self).formatter {
                Formatter::Html(_) => opt_text(r) == Some("<tr>"@) && final(self).formatter is Html,
                Formatter::Flat(f) => r is None && final(self).formatter == Formatter::Flat(f),
                Formatter::Csv(f) => r is None && (final(self).formatter matches Formatter::Csv(g) && g.records@ == f.records@),
                Formatter::Json(f) => r is None && (final(self).formatter matches Formatter::Json(g) && g.file_map@ == f.file_map@),
            },
    {
        match &mut self.formatter {
            Formatter::Flat(f) => f.row_started(),
            Formatter::Csv(f) => f.row_started(),
            Formatter::Json(f) => f.row_started(),
            Formatter::Html(f) => f.row_started(),
        }
    }

    fn write_row_item(&mut self, name: &str, value: &str, is_last: bool) -> (r: Option<String>)
        ensures
            match old(self).formatter {
                Formatter::Html(_) => opt_text(r) == Some("<td>"@ + spec_escape_html(value@) + "</td>"@) && final(self).formatter is Html,
                Formatter::Flat(f) => opt_text(r) == Some(if is_last { value@ } else { value@.push(f.record_separator) })
                    && final(self).formatter == Formatter::Flat(f),
                Formatter::Csv(f) => r is None && (final(self).formatter matches Formatter::Csv(g)
                    && texts(g.records@) == texts(f.records@).push(value@)),
                Formatter::Json(f) => r is None && (final(self).formatter matches Formatter::Json(g)
                    && (f.wf() ==> g.wf() && g.members() == f.members().insert(name@, value@))),
            },
    {
        match &mut self.formatter {
            Formatter::Flat(f) => f.format_element(name, value, is_last),
            Formatter::Csv(f) => f.format_element(name, value, is_last),
            Formatter::Json(f) => f.format_element(name, value, is_last),
            Formatter::Html(f) => f.format_element(name, value, is_last),
        }
    }

    fn write_row_end(&mut self) -> (r: Option<String>)
        ensures
            match old(self).formatter {
                Formatter::Html(_) => opt_text(r) == Some("</tr>"@),
                Formatter::Flat(f) => opt_text(r) == match f.line_separator {
                    Some(c) => Some(seq![c]),
                    None => None::<Seq<char>>,
                },
                Formatter::Csv(f) => opt_text(r) == Some(csv_record_text(texts(f.records@))),
                Formatter::Json(f) => f.wf() ==> opt_text(r) == Some(json_object_text(f.members())),
            },
            row_finished(old(self).formatter, final(self).formatter),
    {
        match &mut self.formatter {
            Formatter::Flat(f) => f.row_ended(),
            Formatter::Csv(f) => f.row_ended(),
            Formatter::Json(f) => f.row_ended(),
            Formatter::Html(f) => f.row_ended(),
        }
    }

    /// The text of one result row: the row start, each (column, value) pair
    /// in turn, the last one marked as such, and the row end.
    pub fn write_row(&mut self, values: Vec<(String, String)>) -> (r: String)
        ensures
            old(self).formatter matches Formatter::Html(_) ==> r@ == "<tr>"@ + html_cells(values@) + "</tr>"@,
            old(self).formatter matches Formatter::Flat(f) ==> r@ == flat_row(values@, f.record_separator) + match f.line_separator {
                Some(c) => seq![c],
                None => Seq::<char>::empty(),
            },
            old(self).formatter matches Formatter::Csv(f) ==> r@ == csv_record_text(texts(f.records@) + values_of(values@)),
            old(self).formatter matches Formatter::Json(f) ==> f.wf() ==> r@ == json_object_text(members_after(f.members(), values@)),
            row_finished(old(self).formatter, final(self).formatter),
    {
        let ghost start = self.formatter;
        let mut s = String::new();
        let o = self.write_row_start();
        Self::push_opt(&mut s, o);
        let len = values.len();
        let mut i: usize = 0;
        while i < len
            invariant
                len == values@.len(),
                i <= len,
                start is Html ==> self.formatter is Html && s@ == "<tr>"@ + html_cells(values@.take(i as int)),
                start matches Formatter::Flat(f0) ==> self.formatter matches Formatter::Flat(f) && f == f0
                    && s@ == flat_prefix(values@.take(i as int), f0.record_separator, len as nat),
                start matches Formatter::Csv(f0) ==> self.formatter matches Formatter::Csv(f)
                    && texts(f.records@) == texts(f0.records@) + values_of(values@.take(i as int)) && s@.len() == 0,
                start matches Formatter::Json(f0) ==> self.formatter matches Formatter::Json(f) && s@.len() == 0 && (f0.wf() ==> f.wf()
                    && f.members() == members_after(f0.members(), values@.take(i as int))),
            decreases len - i,
        {
            let o = self.write_row_item(values[i].0.as_str(), values[i].1.as_str(), i == len - 1);
            Self::push_opt(&mut s, o);
            proof {
                assert(values@.take(i + 1).drop_last() =~= values@.take(i as int));
            }
            i = i + 1;
        }
        let o = self.write_row_end();
        Self::push_opt(&mut s, o);
        proof {
            assert(values@.take(len as int) =~= values@);
        }
        s
    }
}

/// The members after each (name, value) pair of a row is set in turn.
pub open spec fn members_after(m: Map<Seq<char>, Seq<char>>, v: Seq<(String, String)>) -> Map<Seq<char>, Seq<char>>
    decreases v.len(),
{
    if v.len() == 0 {
        m
    } else {
        members_after(m, v.drop_last()).insert(v.last().0@, v.last().1@)
    }
}

/// The values of a row.
pub open spec fn values_of(v: Seq<(String, String)>) -> Seq<Seq<char>> {
    Seq::new(v.len(), |i: int| v[i].1@)
}

/// The HTML cells of a row.
pub open spec fn html_cells(v: Seq<(String, String)>) -> Seq<char>
    decreases v.len(),
{
    if v.len() == 0 {
        Seq::empty()
    } else {
        html_cells(v.drop_last()) + "<td>"@ + spec_escape_html(v.last().1@) + "</td>"@
    }
}

/// The first values of a row of `total` values, each followed by the
/// separator except the row's last one.
pub open spec fn flat_prefix(v: Seq<(String, String)>, sep: char, total: nat) -> Seq<char>
    decreases v.len(),
{
    if v.len() == 0 {
        Seq::empty()
    } else {
        flat_prefix(v.drop_last(), sep, total) + if v.len() == total {
            v.last().1@
        } else {
            v.last().1@.push(sep)
        }
    }
}

/// The values of a row joined by the separator.
pub open spec fn flat_row(v: Seq<(String, String)>, sep: char) -> Seq<char> {
    flat_prefix(v, sep, v.len())
}

} // verus!
