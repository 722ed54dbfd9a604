//! Checks and parsing of what the object dialogs exchange: required input
//! fields, the `KIND|value|...` records, and the payload between two markers
//! of a dialog's output.
use vstd::prelude::*;
use crate::objects::ObjectType;
use crate::text::{all_white_space, chars_of, is_white_space, string_of, trim, trim_bounds, trim_end, trim_start};

verus! {

/// The field holds nothing but white space (or nothing at all).
pub open spec fn is_blank(s: Seq<char>) -> bool {
    trim(s).len() == 0
}

/// Whether the input field is empty once trimmed.
pub fn field_is_blank(s: &str) -> (r: bool)
    ensures
        r == is_blank(s@),
{
    let v = chars_of(s);
    let (lo, hi) = trim_bounds(v.as_slice());
    lo == hi
}

/// The input field without leading and trailing white space.
pub fn trimmed_field(s: &str) -> (r: String)
    ensures
        r@ == trim(s@),
{
    let v = chars_of(s);
    let (lo, hi) = trim_bounds(v.as_slice());
    string_of(&v.as_slice()[lo..hi])
}

proof fn lemma_trim_start_first(s: Seq<char>)
    ensures
        trim_start(s).len() > 0 ==> !is_white_space(trim_start(s)[0]),
    decreases s.len(),
{
    if s.len() > 0 && is_white_space(s[0]) {
        lemma_trim_start_first(s.drop_first());
    }
}

proof fn lemma_trim_end_keeps_first(s: Seq<char>)
    ensures
        trim_end(s).len() <= s.len(),
        trim_end(s).len() > 0 ==> trim_end(s)[0] == s[0],
    decreases s.len(),
{
    if s.len() > 0 && is_white_space(s.last()) {
        lemma_trim_end_keeps_first(s.drop_last());
    }
}

/// A trimmed field that is not empty starts with a character that is not
/// white space, so it never consists of white space only.
pub proof fn lemma_trimmed_not_all_white_space(s: Seq<char>)
    ensures
        trim(s).len() > 0 ==> !all_white_space(trim(s)),
{
    lemma_trim_start_first(s);
    lemma_trim_end_keeps_first(trim_start(s));
    if trim(s).len() > 0 {
        assert(!is_white_space(trim(s)[0]));
    }
}

fn all_whitespace(s: &str) -> (r: bool)
    ensures
        r == all_white_space(s@),
{
    let v = chars_of(s);
    let n = v.len();
    for i in 0..n
        invariant
            n == v@.len(),
            v@ == s@,
            forall|j: int| 0 <= j < i ==> is_white_space(#[trigger] v@[j]),
    {
        if !crate::text::is_whitespace(v[i]) {
            return false;
        }
    }
    true
}

/// Why the coordinates entered for a new object were refused before any
/// number was read.
#[derive(Clone, Copy, Debug, PartialEq, Eq, Structural)]
pub enum FieldError {
    /// X1 or Y1 is empty.
    MissingFirstCorner,
    /// X1 or Y1 holds only white space.
    BlankFirstCorner,
    /// For a rectangle, X2 or Y2 is empty.
    MissingSecondCorner,
    /// For a rectangle, X2 or Y2 holds only white space.
    BlankSecondCorner,
}

/// The coordinate fields of the settings window are filled in: X1 and Y1
/// always, X2 and Y2 for a rectangle (fields are trimmed first).
pub fn check_coordinate_fields(object_type: ObjectType, x1: &str, y1: &str, x2: &str, y2: &str) -> (r: Result<(), FieldError>)
    ensures
        r == if is_blank(x1@) || is_blank(y1@) {
            Err(FieldError::MissingFirstCorner)
        } else if object_type == ObjectType::Rectangle && (is_blank(x2@) || is_blank(y2@)) {
            Err(FieldError::MissingSecondCorner)
        } else {
            Ok(())
        },
{
    let x1t = trimmed_field(x1);
    let y1t = trimmed_field(y1);
    if x1t.as_str().is_empty() || y1t.as_str().is_empty() {
        return Err(FieldError::MissingFirstCorner);
    }
    proof {
        lemma_trimmed_not_all_white_space(x1@);
        lemma_trimmed_not_all_white_space(y1@);
    }
    if all_whitespace(x1t.as_str()) || all_whitespace(y1t.as_str()) {
        return Err(FieldError::BlankFirstCorner);
    }
    match object_type {
        ObjectType::Rectangle => {
            let x2t = trimmed_field(x2);
            let y2t = trimmed_field(y2);
            if x2t.as_str().is_empty() || y2t.as_str().is_empty() {
                return Err(FieldError::MissingSecondCorner);
            }
            proof {
                lemma_trimmed_not_all_white_space(x2@);
                lemma_trimmed_not_all_white_space(y2@);
            }
            if all_whitespace(x2t.as_str()) || all_whitespace(y2t.as_str()) {
                return Err(FieldError::BlankSecondCorner);
            }
            Ok(())
        },
        _ => Ok(()),
    }
}

/// Whether every one of the given fields is filled in (not empty once
/// trimmed).
pub fn all_fields_filled(fields: &[&str]) -> (r: bool)
    ensures
        r == forall|i: int| 0 <= i < fields@.len() ==> !is_blank(#[trigger] fields@[i]@),
{
    let n = fields.len();
    for i in 0..n
        invariant
            n == fields@.len(),
            forall|j: int| 0 <= j < i ==> !is_blank(#[trigger] fields@[j]@),
    {
        if field_is_blank(fields[i]) {
            return false;
        }
    }
    true
}

/// An object read from a dialog record, with its numbers still as text.
#[derive(Clone, Debug, PartialEq, Eq)]
pub enum ObjectData<N> {
    Rectangle { x1: N, y1: N, x2: N, y2: N, eps: N, mu: N },
    Source { x: N, y: N },
    Probe { x: N, y: N },
}

/// Position of the first `|` of `s`, or its length when it has none.
pub open spec fn bar_pos(s: Seq<char>) -> nat
    decreases s.len(),
{
    if s.len() == 0 || s[0] == '|' {
        0
    } else {
        1 + bar_pos(s.drop_first())
    }
}

/// The pieces of `s` between `|` separators (what `str::split('|')`
/// yields; an empty text gives one empty piece).
pub open spec fn split_bars(s: Seq<char>) -> Seq<Seq<char>>
    decreases s.len(),
{
    let k = bar_pos(s);
    if k >= s.len() {
        seq![s]
    } else {
        seq![s.take(k as int)] + split_bars(s.skip(k as int + 1))
    }
}

proof fn lemma_bar_pos(s: Seq<char>, m: int)
    requires
        0 <= m <= s.len(),
        forall|j: int| 0 <= j < m ==> s[j] != '|',
        m == s.len() || s[m] == '|',
    ensures
        bar_pos(s) == m,
    decreases m,
{
    if m > 0 {
        lemma_bar_pos(s.drop_first(), m - 1);
    }
}

/// The pieces of `data` between `|` separators.
pub fn split_bar_fields(data: &str) -> (r: Vec<String>)
    ensures
        r@.map_values(|f: String| f@) == split_bars(data@),
{
    let v = chars_of(data);
    let n = v.len();
    let mut out: Vec<String> = Vec::new();
    let mut pos: usize = 0;
    assert(v@.skip(0) =~= v@);
    loop
        invariant
            n == v@.len(),
            v@ == data@,
            pos <= n,
            out@.map_values(|f: String| f@) + split_bars(v@.skip(pos as int)) == split_bars(v@),
        decreases n - pos,
    {
        let mut k = pos;
        while k < n && v[k] != '|'
            invariant
                pos <= k <= n,
                n == v@.len(),
                forall|j: int| pos <= j < k ==> v@[j] != '|',
            decreases n - k,
        {
            k = k + 1;
        }
        let ghost s = v@.skip(pos as int);
        proof {
            lemma_bar_pos(s, k - pos);
        }
        let piece = string_of(&v.as_slice()[pos..k]);
        assert(piece@ =~= s.take(k - pos));
        let ghost before = out@.map_values(|f: String| f@);
        out.push(piece);
        assert(out@.map_values(|f: String| f@) =~= before.push(piece@));
        if k == n {
            assert(s.take(k - pos) =~= s);
            assert(split_bars(s) == seq![s]);
            assert(out@.map_values(|f: String| f@) =~= before + split_bars(s));
            return out;
        }
        assert(s.skip(k - pos + 1) =~= v@.skip(k + 1));
        assert(split_bars(s) == seq![s.take(k - pos)] + split_bars(v@.skip(k + 1)));
        assert(out@.map_values(|f: String| f@) + split_bars(v@.skip(k + 1)) =~= before + split_bars(s));
        pos = k + 1;
    }
}

/// The object of a dialog record `KIND|v1|v2|...`: `RECTANGLE` with at least
/// six values (x1, y1, x2, y2, eps, mu), `SOURCE` or `PROBE` with at least
/// two (x, y); further values are ignored, and anything else is no object.
pub open spec fn record_object(parts: Seq<Seq<char>>) -> Option<ObjectData<Seq<char>>> {
    if parts.len() >= 7 && parts[0] == "RECTANGLE"@ {
        Some(
            ObjectData::Rectangle {
                x1: parts[1],
                y1: parts[2],
                x2: parts[3],
                y2: parts[4],
                eps: parts[5],
                mu: parts[6],
            },
        )
    } else if parts.len() >= 3 && parts[0] == "SOURCE"@ {
        Some(ObjectData::Source { x: parts[1], y: parts[2] })
    } else if parts.len() >= 3 && parts[0] == "PROBE"@ {
        Some(ObjectData::Probe { x: parts[1], y: parts[2] })
    } else {
        None
    }
}

/// `s` holds no `|`.
pub open spec fn no_bar(s: Seq<char>) -> bool {
    forall|i: int| 0 <= i < s.len() ==> s[i] != '|'
}

/// The pieces joined by `|` separators (a record such as `KIND|v1|v2`).
pub open spec fn join_bars(parts: Seq<Seq<char>>) -> Seq<char>
    decreases parts.len(),
{
    if parts.len() == 0 {
        Seq::empty()
    } else if parts.len() == 1 {
        parts[0]
    } else {
        parts[0] + seq!['|'] + join_bars(parts.drop_first())
    }
}

/// Splitting pieces that hold no `|`, once joined by `|`, gives them back.
pub proof fn lemma_split_join(parts: Seq<Seq<char>>)
    requires
        parts.len() >= 1,
        forall|i: int| 0 <= i < parts.len() ==> no_bar(#[trigger] parts[i]),
    ensures
        split_bars(join_bars(parts)) == parts,
    decreases parts.len(),
{
    let s = join_bars(parts);
    let a = parts[0];
    assert(no_bar(a));
    if parts.len() == 1 {
        lemma_bar_pos(s, s.len() as int);
        assert(split_bars(s) =~= parts);
    } else {
        let rest = parts.drop_first();
        assert forall|i: int| 0 <= i < rest.len() implies no_bar(#[trigger] rest[i]) by {
            assert(rest[i] == parts[i + 1]);
        }
        assert(s[a.len() as int] == '|');
        lemma_bar_pos(s, a.len() as int);
        assert(s.take(a.len() as int) =~= a);
        assert(s.skip(a.len() + 1int) =~= join_bars(rest));
        lemma_split_join(rest);
        assert(seq![a] + rest =~= parts);
    }
}

/// The record a dialog prints for an object reads back as that object with
/// the same values, in the same order: `RECTANGLE` with its six values
/// (x1, y1, x2, y2, eps, mu), `SOURCE` or `PROBE` with its two (x, y).
pub proof fn lemma_record_round_trip(
    x1: Seq<char>,
    y1: Seq<char>,
    x2: Seq<char>,
    y2: Seq<char>,
    eps: Seq<char>,
    mu: Seq<char>,
)
    requires
        no_bar(x1),
        no_bar(y1),
        no_bar(x2),
        no_bar(y2),
        no_bar(eps),
        no_bar(mu),
    ensures
        record_object(split_bars(join_bars(seq!["RECTANGLE"@, x1, y1, x2, y2, eps, mu]))) == Some(
            ObjectData::Rectangle { x1, y1, x2, y2, eps, mu },
        ),
        record_object(split_bars(join_bars(seq!["SOURCE"@, x1, y1]))) == Some(
            ObjectData::Source { x: x1, y: y1 },
        ),
        record_object(split_bars(join_bars(seq!["PROBE"@, x1, y1]))) == Some(
            ObjectData::Probe { x: x1, y: y1 },
        ),
{
    reveal_strlit("RECTANGLE");
    reveal_strlit("SOURCE");
    reveal_strlit("PROBE");
    let r = seq!["RECTANGLE"@, x1, y1, x2, y2, eps, mu];
    let sp = seq!["SOURCE"@, x1, y1];
    let pp = seq!["PROBE"@, x1, y1];
    assert(no_bar("RECTANGLE"@));
    assert(no_bar("SOURCE"@));
    assert(no_bar("PROBE"@));
    assert forall|i: int| 0 <= i < r.len() implies no_bar(#[trigger] r[i]) by {}
    assert forall|i: int| 0 <= i < sp.len() implies no_bar(#[trigger] sp[i]) by {}
    assert forall|i: int| 0 <= i < pp.len() implies no_bar(#[trigger] pp[i]) by {}
    lemma_split_join(r);
    lemma_split_join(sp);
    lemma_split_join(pp);
    assert("PROBE"@ != "SOURCE"@) by {
        assert("PROBE"@[0] != "SOURCE"@[0]);
    }
    assert("PROBE"@ != "RECTANGLE"@) by {
        assert("PROBE"@[0] != "RECTANGLE"@[0]);
    }
    assert("SOURCE"@ != "RECTANGLE"@) by {
        assert("SOURCE"@[0] != "RECTANGLE"@[0]);
    }
}

/// The text views of an object's values.
pub open spec fn data_view(d: ObjectData<String>) -> ObjectData<Seq<char>> {
    match d {
        ObjectData::Rectangle { x1, y1, x2, y2, eps, mu } => ObjectData::Rectangle {
            x1: x1@,
            y1: y1@,
            x2: x2@,
            y2: y2@,
            eps: eps@,
            mu: mu@,
        },
        ObjectData::Source { x, y } => ObjectData::Source { x: x@, y: y@ },
        ObjectData::Probe { x, y } => ObjectData::Probe { x: x@, y: y@ },
    }
}

fn str_equals(a: &str, b: &str) -> (r: bool)
    ensures
        r == (a@ == b@),
{
    let va = chars_of(a);
    let vb = chars_of(b);
    if va.len() != vb.len() {
        return false;
    }
    let n = va.len();
    for i in 0..n
        invariant
            n == va@.len(),
            n == vb@.len(),
            va@ == a@,
            vb@ == b@,
            forall|j: int| 0 <= j < i ==> va@[j] == vb@[j],
    {
        if va[i] != vb[i] {
            assert(va@[i as int] != vb@[i as int]);
            return false;
        }
    }
    assert(va@ =~= vb@);
    true
}

/// The object described by a dialog record, its values still as text.
pub fn parse_object_record(data: &str) -> (r: Option<ObjectData<String>>)
    ensures
        match r {
            Some(d) => record_object(split_bars(data@)) == Some(data_view(d)),
            None => record_object(split_bars(data@)) is None,
        },
{
    let parts = split_bar_fields(data);
    let ghost ps = parts@.map_values(|f: String| f@);
    assert(forall|i: int| 0 <= i < parts@.len() ==> #[trigger] ps[i] == parts@[i]@);
    if parts.len() == 0 {
        return None;
    }
    if parts.len() >= 7 && str_equals(parts[0].as_str(), "RECTANGLE") {
        Some(
            ObjectData::Rectangle {
                x1: parts[1].clone(),
                y1: parts[2].clone(),
                x2: parts[3].clone(),
                y2: parts[4].clone(),
                eps: parts[5].clone(),
                mu: parts[6].clone(),
            },
        )
    } else if parts.len() >= 3 && str_equals(parts[0].as_str(), "SOURCE") {
        Some(ObjectData::Source { x: parts[1].clone(), y: parts[2].clone() })
    } else if parts.len() >= 3 && str_equals(parts[0].as_str(), "PROBE") {
        Some(ObjectData::Probe { x: parts[1].clone(), y: parts[2].clone() })
    } else {
        None
    }
}

/// `pat` occurs in `s` at position `i`.
pub open spec fn occurs_at(s: Seq<char>, pat: Seq<char>, i: int) -> bool {
    0 <= i && i + pat.len() <= s.len() && s.subrange(i, i + pat.len()) == pat
}

/// `i` is the first position where `pat` occurs in `s`.
pub open spec fn is_first_occurrence(s: Seq<char>, pat: Seq<char>, i: int) -> bool {
    occurs_at(s, pat, i) && forall|j: int| 0 <= j < i ==> !occurs_at(s, pat, j)
}

/// The first position where `pat` occurs in `s` (what `str::find` locates).
pub open spec fn first_occurrence(s: Seq<char>, pat: Seq<char>) -> Option<int> {
    if exists|i: int| is_first_occurrence(s, pat, i) {
        Some(choose|i: int| is_first_occurrence(s, pat, i))
    } else {
        None
    }
}

proof fn lemma_first_occurrence_unique(s: Seq<char>, pat: Seq<char>, i: int)
    requires
        is_first_occurrence(s, pat, i),
    ensures
        first_occurrence(s, pat) == Some(i),
{
    let k = choose|k: int| is_first_occurrence(s, pat, k);
    assert(is_first_occurrence(s, pat, k));
    if k < i {
        assert(!occurs_at(s, pat, k));
    } else if i < k {
        assert(!occurs_at(s, pat, i));
    }
}

fn occurs_here(s: &[char], pat: &[char], i: usize) -> (r: bool)
    requires
        i + pat@.len() <= s@.len(),
    ensures
        r == occurs_at(s@, pat@, i as int),
{
    let m = pat.len();
    let n = s.len();
    for k in 0..m
        invariant
            m == pat@.len(),
            n == s@.len(),
            i + m <= s@.len(),
            k <= m,
            forall|j: int| 0 <= j < k ==> s@[i + j] == pat@[j],
    {
        if s[i + k] != pat[k] {
            assert(s@.subrange(i as int, i + m)[k as int] != pat@[k as int]);
            return false;
        }
    }
    assert(s@.subrange(i as int, i + m) =~= pat@);
    true
}

/// The first position where `pat` occurs in `s`.
fn find(s: &[char], pat: &[char]) -> (r: Option<usize>)
    ensures
        r == match first_occurrence(s@, pat@) {
            Some(i) => Some(i as usize),
            None => None,
        },
        r matches Some(i) ==> is_first_occurrence(s@, pat@, i as int),
{
    if pat.len() > s.len() {
        assert forall|i: int| !is_first_occurrence(s@, pat@, i) by {}
        return None;
    }
    let last = s.len() - pat.len();
    let mut i: usize = 0;
    while i < last
        invariant
            last == s@.len() - pat@.len(),
            pat@.len() <= s@.len(),
            i <= last,
            forall|j: int| 0 <= j < i ==> !occurs_at(s@, pat@, j),
        decreases last - i,
    {
        if occurs_here(s, pat, i) {
            proof {
                lemma_first_occurrence_unique(s@, pat@, i as int);
            }
            return Some(i);
        }
        i = i + 1;
    }
    if occurs_here(s, pat, last) {
        proof {
            lemma_first_occurrence_unique(s@, pat@, last as int);
        }
        return Some(last);
    }
    assert forall|k: int| !is_first_occurrence(s@, pat@, k) by {
        if 0 <= k < last {
        } else if k > last {
            assert(!occurs_at(s@, pat@, k));
        }
    }
    None
}

/// The end marker's first occurrence starts inside the start marker's first
/// occurrence (the payload between them would have negative length).
pub open spec fn spec_markers_overlap(output: Seq<char>, start: Seq<char>, end: Seq<char>) -> bool {
    match (first_occurrence(output, start), first_occurrence(output, end)) {
        (Some(i), Some(j)) => i < j && j < i + start.len(),
        _ => false,
    }
}

/// The text between the first start marker and the first end marker of a
/// dialog's output, trimmed; `None` when a marker is missing or the end
/// marker comes first.
pub open spec fn spec_dialog_payload(output: Seq<char>, start: Seq<char>, end: Seq<char>) -> Option<Seq<char>> {
    match (first_occurrence(output, start), first_occurrence(output, end)) {
        (Some(i), Some(j)) => if i < j {
            Some(trim(output.subrange(i + start.len(), j)))
        } else {
            None
        },
        _ => None,
    }
}

/// Whether the end marker starts inside the start marker in `output`, the
/// case in which the payload cannot be cut out.
pub fn markers_overlap(output: &str, start_marker: &str, end_marker: &str) -> (r: bool)
    ensures
        r == spec_markers_overlap(output@, start_marker@, end_marker@),
{
    let o = chars_of(output);
    let sm = chars_of(start_marker);
    let em = chars_of(end_marker);
    match (find(o.as_slice(), sm.as_slice()), find(o.as_slice(), em.as_slice())) {
        (Some(i), Some(j)) => i < j && j - i < sm.len(),
        _ => false,
    }
}

/// The payload that a dialog printed between the two markers, trimmed.
pub fn dialog_payload(output: &str, start_marker: &str, end_marker: &str) -> (r: Option<String>)
    requires
        !spec_markers_overlap(output@, start_marker@, end_marker@),
    ensures
        r matches Some(p) ==> spec_dialog_payload(output@, start_marker@, end_marker@) == Some(p@),
        r is None ==> spec_dialog_payload(output@, start_marker@, end_marker@) is None,
{
    let o = chars_of(output);
    let sm = chars_of(start_marker);
    let em = chars_of(end_marker);
    let start = match find(o.as_slice(), sm.as_slice()) {
        Some(i) => i,
        None => return None,
    };
    let end = match find(o.as_slice(), em.as_slice()) {
        Some(j) => j,
        None => return None,
    };
    if start < end {
        let from = start + sm.len();
        let piece = &o.as_slice()[from..end];
        let (lo, hi) = trim_bounds(piece);
        Some(string_of(&piece[lo..hi]))
    } else {
        None
    }
}

} // verus!
