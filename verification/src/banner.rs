//! Template records for the banner renderer: the placeholder marker grammar,
//! capacity measurement, cleanup of serialization artifacts, loading records,
//! substituting a message into a template, and picking a template at random.

use vstd::prelude::*;

use rand::Rng;

use crate::align::{align_string_with_ws, pad_spec, Position};
use crate::text::{is_ws, is_ws_char, str_to_chars, trimmed};
use crate::text::lemma_trimmed;

verus! {

/// A placeholder marker fills `s[i..j]`: the opening token, at least one
/// whitespace character, then the closing token, and nothing else.
pub open spec fn marker_at(s: Seq<char>, i: int, j: int) -> bool {
    &&& 0 <= i
    &&& i + 9 <= j <= s.len()
    &&& s[i] == 'B' && s[i + 1] == 'E' && s[i + 2] == 'G' && s[i + 3] == 'I' && s[i + 4] == 'N'
    &&& s[j - 3] == 'E' && s[j - 2] == 'N' && s[j - 1] == 'D'
    &&& forall|k: int| i + 5 <= k < j - 3 ==> is_ws_char(s[k])
}

/// Some marker starts at position `i` of `s`.
pub open spec fn has_marker_at(s: Seq<char>, i: int) -> bool {
    exists|j: int| marker_at(s, i, j)
}

/// For one start position the end of a marker is determined: the closing
/// token must begin at the first non-whitespace character after the opening
/// token.
pub proof fn lemma_marker_end_unique(s: Seq<char>, i: int, j1: int, j2: int)
    requires
        marker_at(s, i, j1),
        marker_at(s, i, j2),
    ensures
        j1 == j2,
{
    if j1 < j2 {
        assert(is_ws_char(s[j1 - 3]));
        assert(false);
    }
    if j2 < j1 {
        assert(is_ws_char(s[j2 - 3]));
        assert(false);
    }
}

/// The first marker of `s` at or after position `i`, as the pair of its
/// start and end positions.
pub open spec fn find_marker_from(s: Seq<char>, i: int) -> Option<(int, int)>
    decreases s.len() - i,
{
    if i < 0 || i + 9 > s.len() {
        None
    } else if has_marker_at(s, i) {
        Some((i, choose|j: int| marker_at(s, i, j)))
    } else {
        find_marker_from(s, i + 1)
    }
}

/// The first marker of `s`.
pub open spec fn find_marker_spec(s: Seq<char>) -> Option<(int, int)> {
    find_marker_from(s, 0)
}

/// `s` contains a placeholder marker.
pub open spec fn has_marker(s: Seq<char>) -> bool {
    find_marker_spec(s) is Some
}

/// What `find_marker_from` returns is a marker, with no marker before it.
pub proof fn lemma_find_marker_from(s: Seq<char>, i: int)
    requires
        0 <= i,
    ensures
        match find_marker_from(s, i) {
            Some(p) => marker_at(s, p.0, p.1) && i <= p.0 && forall|i2: int|
                i <= i2 < p.0 ==> !has_marker_at(s, i2),
            None => forall|i2: int| i <= i2 ==> !has_marker_at(s, i2),
        },
    decreases s.len() - i,
{
    if i + 9 > s.len() {
        assert forall|i2: int| i <= i2 implies !has_marker_at(s, i2) by {
            if has_marker_at(s, i2) {
                let j = choose|j: int| marker_at(s, i2, j);
                assert(false);
            }
        }
    } else if has_marker_at(s, i) {
    } else {
        lemma_find_marker_from(s, i + 1);
    }
}

/// Finds the first placeholder marker of `line`, returning its start and end
/// positions in characters.
pub fn find_marker(line: &str) -> (r: Option<(usize, usize)>)
    ensures
        match r {
            Some(p) => find_marker_spec(line@) == Some((p.0 as int, p.1 as int)),
            None => find_marker_spec(line@) is None,
        },
{
    let cs = str_to_chars(line);
    let n = cs.len();
    let mut i: usize = 0;
    while n >= 9 && i <= n - 9
        invariant
            n == line@.len(),
            cs@ == line@,
            find_marker_spec(line@) == find_marker_from(line@, i as int),
        decreases n - i,
    {
        let ghost ii = i as int;
        if cs[i] == 'B' && cs[i + 1] == 'E' && cs[i + 2] == 'G' && cs[i + 3] == 'I' && cs[i + 4]
            == 'N' {
            let mut k = i + 5;
            while k < n && is_ws(cs[k])
                invariant
                    i + 5 <= k <= n,
                    n == line@.len(),
                    cs@ == line@,
                    forall|m: int| i + 5 <= m < k ==> is_ws_char(line@[m]),
                decreases n - k,
            {
                k = k + 1;
            }
            if k > i + 5 && k <= n - 3 && cs[k] == 'E' && cs[k + 1] == 'N' && cs[k + 2] == 'D' {
                proof {
                    assert(marker_at(line@, ii, k as int + 3));
                    let j = choose|j: int| marker_at(line@, ii, j);
                    lemma_marker_end_unique(line@, ii, j, k as int + 3);
                }
                return Some((i, k + 3));
            }
            proof {
                assert(!has_marker_at(line@, ii)) by {
                    if has_marker_at(line@, ii) {
                        let j = choose|j: int| marker_at(line@, ii, j);
                        if j - 3 < k as int {
                            assert(is_ws_char(line@[j - 3]));
                            assert(false);
                        } else if j - 3 > k as int {
                            assert(is_ws_char(line@[k as int]));
                            assert(false);
                        } else {
                            assert(false);
                        }
                    }
                }
            }
        } else {
            proof {
                assert(!has_marker_at(line@, ii)) by {
                    if has_marker_at(line@, ii) {
                        let j = choose|j: int| marker_at(line@, ii, j);
                        assert(false);
                    }
                }
            }
        }
        i = i + 1;
    }
    None
}

/// Errors of loading: a directory that yields no usable template, or a
/// record none of whose lines contains a placeholder marker.
#[derive(Debug, Clone, Copy, PartialEq, Eq, Structural)]
pub enum LoadError {
    NoTemplatesFound,
    NoPlaceholderFound,
}

/// Returned when a message is longer than the placeholder capacity of the
/// template it should be rendered into.
#[derive(Debug, Clone, Copy, PartialEq, Eq, Structural)]
pub struct TextTooLong;

/// The index of the first line at or after `i` that contains a marker.
pub open spec fn marker_line_from(lines: Seq<Seq<char>>, i: int) -> Option<int>
    decreases lines.len() - i,
{
    if i < 0 || i >= lines.len() {
        None
    } else if has_marker(lines[i]) {
        Some(i)
    } else {
        marker_line_from(lines, i + 1)
    }
}

/// The index of the first line of the drawing that contains a marker.
pub open spec fn marker_line(lines: Seq<Seq<char>>) -> Option<int> {
    marker_line_from(lines, 0)
}

/// The placeholder capacity of a drawing: the width of the first marker of
/// the first line that has one.
pub open spec fn capacity_spec(lines: Seq<Seq<char>>) -> Option<int> {
    match marker_line(lines) {
        Some(li) => {
            let p = find_marker_spec(lines[li])->Some_0;
            Some(p.1 - p.0)
        },
        None => None,
    }
}

/// What `marker_line_from` returns is the first marker line at or after `i`.
pub proof fn lemma_marker_line_from(lines: Seq<Seq<char>>, i: int)
    requires
        0 <= i,
    ensures
        match marker_line_from(lines, i) {
            Some(li) => i <= li < lines.len() && has_marker(lines[li]) && forall|l2: int|
                i <= l2 < li ==> !has_marker(lines[l2]),
            None => forall|l2: int| i <= l2 < lines.len() ==> !has_marker(lines[l2]),
        },
    decreases lines.len() - i,
{
    if i < lines.len() && !has_marker(lines[i]) {
        lemma_marker_line_from(lines, i + 1);
    }
}

/// The width of the placeholder region: the length of the first marker in
/// the first line of the drawing that contains one; fails with
/// `NoPlaceholderFound` when no line does.
pub fn get_max_text_len(image: Vec<String>) -> (r: Result<usize, LoadError>)
    ensures
        match r {
            Ok(c) => capacity_spec(image.deep_view()) == Some(c as int),
            Err(e) => capacity_spec(image.deep_view()) is None && e
                == LoadError::NoPlaceholderFound,
        },
{
    match find_marker_line(&image) {
        Some(m) => {
            proof {
                lemma_find_marker_from(image.deep_view()[m.0 as int], 0);
            }
            Ok(m.2 - m.1)
        },
        None => Err(LoadError::NoPlaceholderFound),
    }
}

/// One loaded banner template: its name, the exact character width of its
/// placeholder region, and the lines of its drawing.
pub struct Cow {
    name: String,
    max_text_length: usize,
    image: Vec<String>,
}

impl Cow {
    /// The lines of the drawing, one sequence of characters per line.
    pub closed spec fn lines(&self) -> Seq<Seq<char>> {
        self.image.deep_view()
    }

    /// The template's name.
    pub closed spec fn spec_name(&self) -> Seq<char> {
        self.name@
    }

    /// The stored placeholder capacity.
    pub closed spec fn capacity(&self) -> int {
        self.max_text_length as int
    }

    /// Some line of the drawing holds a placeholder marker, and the stored
    /// capacity is the width of the first marker of the first such line.
    pub closed spec fn wf(&self) -> bool {
        capacity_spec(self.lines()) == Some(self.max_text_length as int)
    }

    /// Builds a template from its name and drawing, measuring the
    /// placeholder capacity; fails with `NoPlaceholderFound` when no line of
    /// the drawing contains a marker.
    pub fn new(name: String, image: Vec<String>) -> (r: Result<Cow, LoadError>)
        ensures
            match r {
                Ok(c) => c.wf() && c.lines() == image.deep_view() && c.spec_name() == name@
                    && Some(c.capacity()) == capacity_spec(image.deep_view()),
                Err(e) => capacity_spec(image.deep_view()) is None && e
                    == LoadError::NoPlaceholderFound,
            },
    {
        match find_marker_line(&image) {
            Some(m) => {
                proof {
                    lemma_find_marker_from(image.deep_view()[m.0 as int], 0);
                }
                Ok(Cow { name, max_text_length: m.2 - m.1, image })
            },
            None => Err(LoadError::NoPlaceholderFound),
        }
    }

    /// The template's name.
    pub fn name(&self) -> (r: &String)
        ensures
            r@ == self.spec_name(),
    {
        &self.name
    }

    /// The exact character width of the placeholder region.
    pub fn max_text_len(&self) -> (r: usize)
        ensures
            r as int == self.capacity(),
    {
        self.max_text_length
    }

    /// The lines of the drawing.
    pub fn image(&self) -> (r: &Vec<String>)
        ensures
            r.deep_view() == self.lines(),
    {
        &self.image
    }
}

impl Clone for Cow {
    /// A copy with the same name, capacity and drawing.
    fn clone(&self) -> (r: Self)
        ensures
            r.spec_name() == self.spec_name(),
            r.capacity() == self.capacity(),
            r.lines() == self.lines(),
            self.wf() ==> r.wf(),
    {
        Cow {
            name: self.name.clone(),
            max_text_length: self.max_text_length,
            image: crate::text::clone_strings(&self.image),
        }
    }
}

/// The first line of `image` that contains a marker, with the start and end
/// of the first marker in it.
fn find_marker_line(image: &Vec<String>) -> (r: Option<(usize, usize, usize)>)
    ensures
        match r {
            Some(m) => marker_line(image.deep_view()) == Some(m.0 as int) && find_marker_spec(
                image.deep_view()[m.0 as int],
            ) == Some((m.1 as int, m.2 as int)),
            None => marker_line(image.deep_view()) is None,
        },
{
    let ghost lines = image.deep_view();
    let n = image.len();
    let mut li: usize = 0;
    while li < n
        invariant
            li <= n,
            n == lines.len(),
            lines == image.deep_view(),
            marker_line(lines) == marker_line_from(lines, li as int),
        decreases n - li,
    {
        proof {
            assert(lines[li as int] == image@[li as int]@);
        }
        match find_marker(image[li].as_str()) {
            Some(p) => {
                return Some((li, p.0, p.1));
            },
            None => {},
        }
        li = li + 1;
    }
    None
}

/// One leading and one trailing quote stripped from `s`, if present: first
/// the leading one, then, on that result, the trailing one.
pub open spec fn strip_quotes(s: Seq<char>) -> Seq<char> {
    let a = if s.len() > 0 && s[0] == '"' {
        s.skip(1)
    } else {
        s
    };
    if a.len() > 0 && a.last() == '"' {
        a.drop_last()
    } else {
        a
    }
}

/// Every doubled backslash of `s` collapsed to a single backslash, left to
/// right.
pub open spec fn collapse_backslashes(s: Seq<char>) -> Seq<char>
    decreases s.len(),
{
    if s.len() == 0 {
        Seq::empty()
    } else if s.len() >= 2 && s[0] == '\\' && s[1] == '\\' {
        seq!['\\'] + collapse_backslashes(s.skip(2))
    } else {
        seq![s[0]] + collapse_backslashes(s.skip(1))
    }
}

/// A raw line as the serialization format stores it, cleaned: one leading
/// and one trailing quote stripped, then doubled backslashes collapsed.
pub open spec fn clean_spec(s: Seq<char>) -> Seq<char> {
    collapse_backslashes(strip_quotes(s))
}

/// Cleans one raw line of a serialized record: strips one leading quote if
/// present, then one trailing quote if present, then collapses every doubled
/// backslash to a single backslash, left to right.
pub fn clean_line(line: &str) -> (r: String)
    ensures
        r@ == clean_spec(line@),
{
    let cs = str_to_chars(line);
    let n = cs.len();
    let start: usize = if n > 0 && cs[0] == '"' {
        1
    } else {
        0
    };
    let end: usize = if n > start && cs[n - 1] == '"' {
        n - 1
    } else {
        n
    };
    let ghost q = strip_quotes(line@);
    proof {
        if start == 1 {
            assert(line@.skip(1) =~= line@.subrange(1, n as int));
        }
        assert(q =~= line@.subrange(start as int, end as int));
    }
    let mut out = String::new();
    let mut i: usize = start;
    while i < end
        invariant
            start <= i <= end <= n,
            n == line@.len(),
            cs@ == line@,
            q == line@.subrange(start as int, end as int),
            collapse_backslashes(q) == out@ + collapse_backslashes(
                line@.subrange(i as int, end as int),
            ),
        decreases end - i,
    {
        let ghost rest = line@.subrange(i as int, end as int);
        let ghost out0 = out@;
        if i + 1 < end && cs[i] == '\\' && cs[i + 1] == '\\' {
            out.push('\\');
            proof {
                assert(rest.skip(2) =~= line@.subrange(i as int + 2, end as int));
                assert(out0.push('\\') + collapse_backslashes(rest.skip(2)) =~= out0 + (seq!['\\']
                    + collapse_backslashes(rest.skip(2))));
            }
            i = i + 2;
        } else {
            out.push(cs[i]);
            proof {
                assert(rest[0] == line@[i as int]);
                assert(rest.skip(1) =~= line@.subrange(i as int + 1, end as int));
                assert(out0.push(rest[0]) + collapse_backslashes(rest.skip(1)) =~= out0 + (seq![
                    rest[0],
                ] + collapse_backslashes(rest.skip(1))));
            }
            i = i + 1;
        }
    }
    proof {
        assert(line@.subrange(i as int, end as int) =~= Seq::<char>::empty());
    }
    out
}

/// The first marker of `line` replaced by `aligned`; a line without a marker
/// passes through unchanged.
pub open spec fn replace_marker(line: Seq<char>, aligned: Seq<char>) -> Seq<char> {
    match find_marker_spec(line) {
        Some(p) => line.subrange(0, p.0) + aligned + line.subrange(p.1, line.len() as int),
        None => line,
    }
}

/// The lines joined with a newline between each consecutive pair, with no
/// trailing newline.
pub open spec fn join_nl(lines: Seq<Seq<char>>) -> Seq<char>
    decreases lines.len(),
{
    if lines.len() == 0 {
        Seq::empty()
    } else if lines.len() == 1 {
        lines[0]
    } else {
        lines[0] + seq!['\n'] + join_nl(lines.skip(1))
    }
}

pub proof fn lemma_join_nl_push(lines: Seq<Seq<char>>, x: Seq<char>)
    ensures
        join_nl(lines.push(x)) == if lines.len() == 0 {
            x
        } else {
            join_nl(lines) + seq!['\n'] + x
        },
    decreases lines.len(),
{
    if lines.len() == 0 {
        assert(join_nl(lines.push(x)) == lines.push(x)[0]);
    } else if lines.len() == 1 {
        assert(lines.push(x).skip(1) =~= seq![x]);
        assert(join_nl(seq![x]) == x);
        assert(lines.push(x)[0] == lines[0]);
    } else {
        assert(lines.push(x).skip(1) =~= lines.skip(1).push(x));
        lemma_join_nl_push(lines.skip(1), x);
        assert(lines.push(x)[0] == lines[0]);
        assert(lines[0] + seq!['\n'] + (join_nl(lines.skip(1)) + seq!['\n'] + x) =~= (lines[0]
            + seq!['\n'] + join_nl(lines.skip(1))) + seq!['\n'] + x);
    }
}

/// The whole rendered drawing: the first marker line has its marker replaced
/// by `text` trimmed and center-padded to `cap`; every other line passes
/// through unchanged; the lines are joined by newlines.
pub open spec fn render_spec(lines: Seq<Seq<char>>, cap: nat, text: Seq<char>) -> Seq<char>
    recommends
        marker_line(lines) is Some,
{
    let li = marker_line(lines)->Some_0;
    let aligned = pad_spec(trimmed(text), cap, Position::Center);
    join_nl(lines.update(li, replace_marker(lines[li], aligned)))
}

/// Renders `text` into the placeholder of `cow`: checks that the text is no
/// longer than the capacity, centers it in a field exactly as wide as the
/// placeholder, substitutes that field for the first marker of the first
/// marker line, and joins the lines with newlines, none trailing.
pub fn generate_cow(cow: Cow, text: String) -> (r: Result<String, TextTooLong>)
    requires
        cow.wf(),
    ensures
        r is Ok <==> text@.len() <= cow.capacity(),
        r matches Ok(s) ==> s@ == render_spec(cow.lines(), cow.capacity() as nat, text@),
{
    let ghost lines = cow.lines();
    let ghost cap = cow.capacity() as nat;
    let tl = text.as_str().unicode_len();
    if cow.max_text_length < tl {
        return Err(TextTooLong);
    }
    proof {
        lemma_trimmed(text@);
    }
    let aligned = match align_string_with_ws(text, cow.max_text_length, Position::Center) {
        Ok(a) => a,
        Err(_) => vstd::pervasive::unreached(),
    };
    let m = match find_marker_line(&cow.image) {
        Some(m) => m,
        None => vstd::pervasive::unreached(),
    };
    let (li, mi, mj) = m;
    proof {
        lemma_marker_line_from(lines, 0);
        lemma_find_marker_from(lines[li as int], 0);
    }
    let ghost rlines = lines.update(li as int, replace_marker(lines[li as int], aligned@));
    let n = cow.image.len();
    let mut out = String::new();
    let mut idx: usize = 0;
    while idx < n
        invariant
            idx <= n,
            n == lines.len(),
            lines == cow.image.deep_view(),
            rlines.len() == n,
            li < n,
            find_marker_spec(lines[li as int]) == Some((mi as int, mj as int)),
            marker_at(lines[li as int], mi as int, mj as int),
            rlines == lines.update(li as int, replace_marker(lines[li as int], aligned@)),
            out@ == join_nl(rlines.take(idx as int)),
        decreases n - idx,
    {
        proof {
            assert(rlines.take(idx as int).push(rlines[idx as int]) =~= rlines.take(idx as int + 1));
            lemma_join_nl_push(rlines.take(idx as int), rlines[idx as int]);
        }
        if idx > 0 {
            out.push('\n');
        }
        let line = &cow.image[idx];
        proof {
            assert(lines[idx as int] == cow.image@[idx as int]@);
        }
        if idx == li {
            let ghost l = lines[li as int];
            out.append(line.as_str().substring_char(0, mi));
            out.append(aligned.as_str());
            let line_len = line.as_str().unicode_len();
            out.append(line.as_str().substring_char(mj, line_len));
            proof {
                assert(rlines[idx as int] =~= l.subrange(0, mi as int) + aligned@ + l.subrange(
                    mj as int,
                    l.len() as int,
                ));
            }
        } else {
            out.append(line.as_str());
            proof {
                assert(rlines[idx as int] == lines[idx as int]);
            }
        }
        idx = idx + 1;
    }
    proof {
        assert(rlines.take(n as int) =~= rlines);
        assert(marker_line(lines) == Some(li as int));
    }
    Ok(out)
}

/// What parsing one serialized record yields: the record's name field
/// rendered as text, and the raw entries of its `image` field, each rendered
/// as text; or nothing when the text is no such record. A function of the
/// text alone.
pub uninterp spec fn parsed_record(s: Seq<char>) -> Option<(Seq<char>, Seq<Seq<char>>)>;

/// Relies on serde_json: `from_str` parses the record text, `Value::as_array`
/// exposes the entries of its `image` field, and `Value::to_string` renders
/// the name and each entry as JSON text. The result depends on the text
/// alone.
#[verifier::external_body]
fn parse_record(raw: &str) -> (r: Option<(String, Vec<String>)>)
    ensures
        match r {
            Some(p) => parsed_record(raw@) == Some((p.0@, p.1.deep_view())),
            None => parsed_record(raw@) is None,
        },
{
    let json: serde_json::Value = match serde_json::from_str(raw) {
        Ok(j) => j,
        Err(_) => return None,
    };
    let entries = match json["image"].as_array() {
        Some(a) => a,
        None => return None,
    };
    let lines = entries.iter().map(|e| e.to_string()).collect();
    Some((json["name"].to_string(), lines))
}

/// The mathematical content of one loaded template: its name, its cleaned
/// drawing, and its measured capacity.
pub ghost struct TemplateView {
    pub name: Seq<char>,
    pub lines: Seq<Seq<char>>,
    pub capacity: int,
}

/// The content of a loaded template record.
pub open spec fn cow_view(c: Cow) -> TemplateView {
    TemplateView { name: c.spec_name(), lines: c.lines(), capacity: c.capacity() }
}

/// Loading, record text by record text: a text that does not parse as a
/// record is skipped; a record whose cleaned drawing has no marker fails the
/// load; every other record becomes a template with its measured capacity.
pub open spec fn load_rec(texts: Seq<Seq<char>>) -> Result<Seq<TemplateView>, LoadError>
    decreases texts.len(),
{
    if texts.len() == 0 {
        Ok(Seq::empty())
    } else {
        match parsed_record(texts[0]) {
            None => load_rec(texts.skip(1)),
            Some(p) => {
                let cleaned = p.1.map_values(|l: Seq<char>| clean_spec(l));
                match capacity_spec(cleaned) {
                    None => Err(LoadError::NoPlaceholderFound),
                    Some(c) => match load_rec(texts.skip(1)) {
                        Ok(s) => Ok(
                            seq![TemplateView { name: p.0, lines: cleaned, capacity: c }] + s,
                        ),
                        Err(e) => Err(e),
                    },
                }
            },
        }
    }
}

/// What loading a sequence of record texts yields: the templates in order;
/// `NoPlaceholderFound` when some record's drawing lacks a marker; else
/// `NoTemplatesFound` when no record was usable.
pub open spec fn load_spec(texts: Seq<Seq<char>>) -> Result<Seq<TemplateView>, LoadError> {
    match load_rec(texts) {
        Ok(s) => if s.len() == 0 {
            Err(LoadError::NoTemplatesFound)
        } else {
            Ok(s)
        },
        Err(e) => Err(e),
    }
}

spec fn prepend_templates(acc: Seq<TemplateView>, r: Result<Seq<TemplateView>, LoadError>) -> Result<
    Seq<TemplateView>,
    LoadError,
> {
    match r {
        Ok(s) => Ok(acc + s),
        Err(e) => Err(e),
    }
}

/// Every line of a raw drawing cleaned of its serialization artifacts.
fn clean_lines(raw: &Vec<String>) -> (r: Vec<String>)
    ensures
        r.deep_view() == raw.deep_view().map_values(|l: Seq<char>| clean_spec(l)),
{
    let mut r: Vec<String> = Vec::new();
    let mut j: usize = 0;
    while j < raw.len()
        invariant
            j <= raw@.len(),
            r@.len() == j,
            forall|t: int| 0 <= t < j ==> r.deep_view()[t] == clean_spec(raw.deep_view()[t]),
        decreases raw@.len() - j,
    {
        let ghost prev = r;
        r.push(clean_line(raw[j].as_str()));
        proof {
            assert forall|t: int| 0 <= t < j + 1 implies r.deep_view()[t] == clean_spec(
                raw.deep_view()[t],
            ) by {
                if t < j {
                    assert(r@[t] == prev@[t]);
                    assert(prev.deep_view()[t] == clean_spec(raw.deep_view()[t]));
                } else {
                    assert(r@[t]@ == clean_spec(raw@[t]@));
                }
            }
        }
        j = j + 1;
    }
    assert(r.deep_view() =~~= raw.deep_view().map_values(|l: Seq<char>| clean_spec(l)));
    r
}

/// Loads templates from the record texts read out of a directory, in order.
/// A text that does not parse as a record is skipped; a record whose cleaned
/// drawing has no placeholder marker fails the whole load with
/// `NoPlaceholderFound`; a load that yields no template at all fails with
/// `NoTemplatesFound`.
pub fn load_cows_from_texts(texts: &Vec<String>) -> (r: Result<Vec<Cow>, LoadError>)
    ensures
        match r {
            Ok(cows) => {
                &&& load_spec(texts.deep_view()) == Ok::<Seq<TemplateView>, LoadError>(
                    cows@.map_values(|c: Cow| cow_view(c)),
                )
                &&& cows@.len() > 0
                &&& forall|i: int| 0 <= i < cows@.len() ==> (#[trigger] cows@[i]).wf()
            },
            Err(e) => load_spec(texts.deep_view()) == Err::<Seq<TemplateView>, LoadError>(e),
        },
{
    let ghost tv = texts.deep_view();
    let n = texts.len();
    let mut cows: Vec<Cow> = Vec::new();
    let mut i: usize = 0;
    proof {
        assert(tv.skip(0) =~= tv);
        assert(cows@.map_values(|c: Cow| cow_view(c)) =~= Seq::<TemplateView>::empty());
        if load_rec(tv) is Ok {
            assert(Seq::<TemplateView>::empty() + load_rec(tv)->Ok_0 =~= load_rec(tv)->Ok_0);
        }
    }
    while i < n
        invariant
            i <= n,
            n == tv.len(),
            tv == texts.deep_view(),
            load_rec(tv) == prepend_templates(
                cows@.map_values(|c: Cow| cow_view(c)),
                load_rec(tv.skip(i as int)),
            ),
            forall|k: int| 0 <= k < cows@.len() ==> (#[trigger] cows@[k]).wf(),
        decreases n - i,
    {
        let ghost rest = tv.skip(i as int);
        proof {
            assert(rest[0] == tv[i as int]);
            assert(rest.skip(1) =~= tv.skip(i as int + 1));
            assert(tv[i as int] == texts@[i as int]@);
        }
        match parse_record(texts[i].as_str()) {
            None => {},
            Some(rec) => {
                let (name, raw_lines) = rec;
                let cleaned = clean_lines(&raw_lines);
                match Cow::new(name, cleaned) {
                    Ok(c) => {
                        let ghost acc0 = cows@.map_values(|c: Cow| cow_view(c));
                        cows.push(c);
                        proof {
                            assert(cows@.map_values(|c: Cow| cow_view(c)) =~= acc0.push(
                                cow_view(c),
                            ));
                            if load_rec(rest.skip(1)) is Ok {
                                let s = load_rec(rest.skip(1))->Ok_0;
                                assert(acc0 + (seq![cow_view(c)] + s) =~= acc0.push(cow_view(c))
                                    + s);
                            }
                        }
                    },
                    Err(_) => {
                        proof {
                            assert(load_rec(rest) == Err::<Seq<TemplateView>, LoadError>(
                                LoadError::NoPlaceholderFound,
                            ));
                        }
                        return Err(LoadError::NoPlaceholderFound);
                    },
                }
            },
        }
        i = i + 1;
    }
    proof {
        assert(tv.skip(n as int) =~= Seq::<Seq<char>>::empty());
        assert(cows@.map_values(|c: Cow| cow_view(c)) + Seq::<TemplateView>::empty() =~= cows@
            .map_values(|c: Cow| cow_view(c)));
    }
    if cows.len() == 0 {
        Err(LoadError::NoTemplatesFound)
    } else {
        Ok(cows)
    }
}

/// How one rendering call can end against one template: success exactly when
/// the text fits the capacity, and then with the rendered drawing.
pub open spec fn outcome_matches(c: Cow, text: Seq<char>, r: Result<String, TextTooLong>) -> bool {
    match r {
        Ok(s) => text.len() <= c.capacity() && s@ == render_spec(
            c.lines(),
            c.capacity() as nat,
            text,
        ),
        Err(_) => text.len() > c.capacity(),
    }
}

/// Relies on `rand::thread_rng` and `rand::Rng::gen_range`: a uniformly
/// random index drawn from `[0, n)`. `gen_range` panics on an empty range,
/// so `n` must be positive; nothing more can be promised of a random value.
#[verifier::external_body]
pub(crate) fn random_index(n: usize) -> (r: usize)
    requires
        n > 0,
    ensures
        r < n,
{
    let mut rng = rand::thread_rng();
    rng.gen_range(0..n)
}

/// Renders `string` with a template picked uniformly at random from `cows`;
/// the pool must not be empty. Whatever index is drawn, the outcome is the
/// rendering outcome of one of the pool's templates, and over a pool of a
/// single template it is exactly the outcome of rendering that template.
pub fn milk_random_cow(cows: Vec<Cow>, string: &String) -> (r: Result<String, TextTooLong>)
    requires
        cows@.len() > 0,
        forall|i: int| 0 <= i < cows@.len() ==> (#[trigger] cows@[i]).wf(),
    ensures
        exists|i: int| 0 <= i < cows@.len() && #[trigger] outcome_matches(cows@[i], string@, r),
        cows@.len() == 1 ==> outcome_matches(cows@[0], string@, r),
{
    let idx = random_index(cows.len());
    let cow = cows[idx].clone();
    let r = generate_cow(cow, string.clone());
    proof {
        assert(outcome_matches(cows@[idx as int], string@, r));
    }
    r
}

} // verus!
