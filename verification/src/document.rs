//! Adding one object entry to an existing configuration file: the entry is
//! placed at the end of its section (`[geometry]`, `[probes]` or
//! `[sources]`), line by line.
use vstd::prelude::*;
use crate::objects::{ObjectType, ProjectObject, ProjectSettings, DEFAULT_DESCRIPTION};
use crate::text::{chars_of, join_lines, lines_of, newline_pos, string_of, strip_cr, trim, trimmed_equals};
use crate::toml_text::{
    entries_of, settings_text, key_line, object_section, object_text, BOUNDARY_BLOCK, DESCRIPTION_CLOSE,
    DESCRIPTION_OPEN, DX_KEY, DY_KEY, GEOMETRY_HEADER, MAXTIME_KEY, MODELLING_HEADER, PROBES_HEADER,
    SIZEX_KEY, SIZEY_KEY, SOURCES_HEADER,
};

verus! {

/// Header line of the section that holds objects of kind `t`.
pub open spec fn section_header(t: ObjectType) -> Seq<char> {
    match t {
        ObjectType::Rectangle => "[geometry]"@,
        ObjectType::Source => "[sources]"@,
        ObjectType::Probe => "[probes]"@,
    }
}

/// The line opens a table (its first character is `[`).
pub open spec fn opens_table(l: Seq<char>) -> bool {
    l.len() > 0 && l[0] == '['
}

/// Scanning the lines in order: the output pieces so far, whether the target
/// header was met, and whether the scan is inside the target section. The
/// entry is placed before the first table header that ends the target
/// section.
pub open spec fn scan(lines: Seq<Seq<char>>, target: Seq<char>, entry: Seq<char>) -> (Seq<Seq<char>>, bool, bool)
    decreases lines.len(),
{
    if lines.len() == 0 {
        (Seq::empty(), false, false)
    } else {
        let (p, found, inside) = scan(lines.drop_last(), target, entry);
        let l = lines.last();
        if trim(l) == target {
            (p.push(l), true, true)
        } else if inside && opens_table(l) {
            (p.push(entry).push(l), found, false)
        } else {
            (p.push(l), found, inside)
        }
    }
}

/// The pieces of the new file: the scanned lines, then the entry once more if
/// the file ends inside the target section, and once more if the target
/// header never occurs.
pub open spec fn insert_pieces(lines: Seq<Seq<char>>, target: Seq<char>, entry: Seq<char>) -> Seq<Seq<char>> {
    let (p, found, inside) = scan(lines, target, entry);
    p + (if inside { seq![entry] } else { Seq::empty() }) + (if !found { seq![entry] } else { Seq::empty() })
}

/// The file `content` with `entry` added to the section with header `target`.
pub open spec fn insert_entry(content: Seq<char>, target: Seq<char>, entry: Seq<char>) -> Seq<char> {
    join_lines(insert_pieces(lines_of(content), target, entry))
}

/// The lines of `v` given by `ranges`.
pub open spec fn range_lines(v: Seq<char>, ranges: Seq<(usize, usize)>) -> Seq<Seq<char>> {
    ranges.map_values(|r: (usize, usize)| v.subrange(r.0 as int, r.1 as int))
}

proof fn lemma_newline_pos(s: Seq<char>, m: int)
    requires
        0 <= m <= s.len(),
        forall|j: int| 0 <= j < m ==> s[j] != '\n',
        m == s.len() || s[m] == '\n',
    ensures
        newline_pos(s) == m,
    decreases m,
{
    if m > 0 {
        lemma_newline_pos(s.drop_first(), m - 1);
    }
}

/// The ranges of the lines of `v`, as `str::lines` splits it.
fn line_ranges(v: &[char]) -> (r: Vec<(usize, usize)>)
    ensures
        range_lines(v@, r@) == lines_of(v@),
        forall|i: int| 0 <= i < r@.len() ==> (#[trigger] r@[i]).0 <= r@[i].1 <= v@.len(),
{
    let n = v.len();
    let mut out: Vec<(usize, usize)> = Vec::new();
    let mut pos: usize = 0;
    assert(v@.skip(0) =~= v@);
    while pos < n
        invariant
            n == v@.len(),
            pos <= n,
            range_lines(v@, out@) + lines_of(v@.skip(pos as int)) == lines_of(v@),
            forall|i: int| 0 <= i < out@.len() ==> (#[trigger] out@[i]).0 <= out@[i].1 <= n,
        decreases n - pos,
    {
        let mut k = pos;
        while k < n && v[k] != '\n'
            invariant
                pos <= k <= n,
                n == v@.len(),
                forall|j: int| pos <= j < k ==> v@[j] != '\n',
            decreases n - k,
        {
            k = k + 1;
        }
        let ghost s = v@.skip(pos as int);
        proof {
            lemma_newline_pos(s, k - pos);
        }
        let ghost before = out@;
        if k == n {
            assert(s.len() > 0);
            assert(lines_of(s) == seq![s]);
            out.push((pos, n));
            assert(v@.subrange(pos as int, n as int) =~= s);
            assert(range_lines(v@, out@) =~= range_lines(v@, before) + seq![s]);
            assert(v@.skip(n as int) =~= Seq::<char>::empty());
            assert(lines_of(v@.skip(n as int)) =~= Seq::<Seq<char>>::empty());
            assert(range_lines(v@, out@) + lines_of(v@.skip(n as int)) =~= range_lines(v@, out@));
            pos = n;
        } else {
            let end = if k > pos && v[k - 1] == '\r' {
                k - 1
            } else {
                k
            };
            assert(s.skip(k - pos + 1) =~= v@.skip(k + 1));
            assert(v@.subrange(pos as int, end as int) =~= strip_cr(s.take(k - pos)));
            out.push((pos, end));
            assert(range_lines(v@, out@) =~= range_lines(v@, before) + seq![strip_cr(s.take(k - pos))]);
            assert(lines_of(s) == seq![strip_cr(s.take(k - pos))] + lines_of(v@.skip(k + 1)));
            assert(range_lines(v@, out@) + lines_of(v@.skip(k + 1)) =~= range_lines(v@, before) + lines_of(s));
            pos = k + 1;
        }
    }
    assert(v@.skip(n as int) =~= Seq::<char>::empty());
    assert(range_lines(v@, out@) + lines_of(v@.skip(n as int)) =~= range_lines(v@, out@));
    out
}

fn starts_with_bracket(l: &[char]) -> (r: bool)
    ensures
        r == opens_table(l@),
{
    l.len() > 0 && l[0] == '['
}

proof fn lemma_join_push(pieces: Seq<Seq<char>>, x: Seq<char>)
    ensures
        join_lines(pieces.push(x)) == if pieces.len() == 0 {
            x
        } else {
            join_lines(pieces) + seq!['\n'] + x
        },
{
    assert(pieces.push(x).drop_last() =~= pieces);
}

/// Appends a piece to a `\n`-joined text of `count` pieces.
fn push_piece(out: &mut Vec<char>, started: bool, piece: &[char])
    ensures
        final(out)@ == if !started {
            old(out)@ + piece@
        } else {
            old(out)@ + seq!['\n'] + piece@
        },
{
    if started {
        out.push('\n');
    }
    let ghost mid = out@;
    let m = piece.len();
    for i in 0..m
        invariant
            m == piece@.len(),
            out@ == mid + piece@.take(i as int),
    {
        out.push(piece[i]);
        assert(piece@.take(i + 1) =~= piece@.take(i as int).push(piece@[i as int]));
    }
    assert(piece@.take(m as int) =~= piece@);
}

/// `content` with `entry` added to the section whose header line (trimmed)
/// is `target`: the entry goes before the table header that ends that
/// section, at the end when the section is the last one, and at the end when
/// no such section exists.
pub fn insert_entry_text(content: &str, target: &str, entry: &str) -> (r: String)
    ensures
        r@ == insert_entry(content@, target@, entry@),
{
    let v = chars_of(content);
    let t = chars_of(target);
    let e = chars_of(entry);
    let ranges = line_ranges(v.as_slice());
    let ghost lines = lines_of(v@);
    let mut out: Vec<char> = Vec::new();
    let mut started = false;
    let mut found = false;
    let mut inside = false;
    let n = ranges.len();
    for i in 0..n
        invariant
            n == ranges@.len(),
            lines == lines_of(v@),
            range_lines(v@, ranges@) == lines,
            forall|j: int| 0 <= j < ranges@.len() ==> (#[trigger] ranges@[j]).0 <= ranges@[j].1 <= v@.len(),
            scan(lines.take(i as int), t@, e@).1 == found,
            scan(lines.take(i as int), t@, e@).2 == inside,
            out@ == join_lines(scan(lines.take(i as int), t@, e@).0),
            started == (scan(lines.take(i as int), t@, e@).0.len() > 0),
    {
        let (a, b) = ranges[i];
        let line = &v.as_slice()[a..b];
        let ghost l = lines[i as int];
        assert(line@ == l) by {
            assert(range_lines(v@, ranges@)[i as int] == l);
        }
        let ghost p = scan(lines.take(i as int), t@, e@).0;
        assert(lines.take(i + 1).drop_last() =~= lines.take(i as int));
        assert(lines.take(i + 1).last() == l);
        if trimmed_equals(line, t.as_slice()) {
            push_piece(&mut out, started, line);
            proof {
                lemma_join_push(p, l);
            }
            started = true;
            found = true;
            inside = true;
        } else if inside && starts_with_bracket(line) {
            push_piece(&mut out, started, e.as_slice());
            proof {
                lemma_join_push(p, e@);
            }
            started = true;
            push_piece(&mut out, started, line);
            proof {
                lemma_join_push(p.push(e@), l);
            }
            started = true;
            inside = false;
        } else {
            push_piece(&mut out, started, line);
            proof {
                lemma_join_push(p, l);
            }
            started = true;
        }
    }
    assert(lines.take(n as int) =~= lines);
    let ghost p = scan(lines, t@, e@).0;
    if inside {
        push_piece(&mut out, started, e.as_slice());
        proof {
            lemma_join_push(p, e@);
        }
        started = true;
    }
    let ghost p2 = p + (if inside { seq![e@] } else { Seq::empty() });
    assert(out@ == join_lines(p2)) by {
        if !inside {
            assert(p2 =~= p);
        } else {
            assert(p2 =~= p.push(e@));
        }
    }
    if !found {
        push_piece(&mut out, started, e.as_slice());
        proof {
            lemma_join_push(p2, e@);
        }
    }
    assert(insert_pieces(lines, t@, e@) =~= p2 + (if !found { seq![e@] } else { Seq::empty() }));
    proof {
        if !found {
            assert(p2 + seq![e@] =~= p2.push(e@));
        } else {
            assert(p2 + Seq::<Seq<char>>::empty() =~= p2);
        }
    }
    string_of(out.as_slice())
}

/// The text of a project with the default description, a one metre square
/// area, one centimetre cells, a run time of one second and no objects: the
/// file that an entry is added to when there is no file yet.
pub open spec fn empty_document_text() -> Seq<char> {
    DESCRIPTION_OPEN@ + DEFAULT_DESCRIPTION@ + DESCRIPTION_CLOSE@ + MODELLING_HEADER@ + key_line(
        SIZEX_KEY@,
        "1.0"@,
    ) + key_line(SIZEY_KEY@, "1.0"@) + key_line(DX_KEY@, "0.01"@) + key_line(DY_KEY@, "0.01"@)
        + key_line(MAXTIME_KEY@, "1.0"@) + BOUNDARY_BLOCK@ + GEOMETRY_HEADER@ + PROBES_HEADER@
        + SOURCES_HEADER@
}

/// The configuration file that holds no objects yet.
pub fn empty_document() -> (r: String)
    ensures
        r@ == empty_document_text(),
{
    let s = ProjectSettings {
        description: String::from_str(DEFAULT_DESCRIPTION),
        sizex: String::from_str("1.0"),
        sizey: String::from_str("1.0"),
        dx: String::from_str("0.01"),
        dy: String::from_str("0.01"),
        maxtime: String::from_str("1.0"),
        objects: Vec::new(),
    };
    proof {
        reveal_strlit("Временная конфигурация");
    }
    let r = s.to_toml_string();
    assert(entries_of(s.objects@, ObjectType::Rectangle) =~= Seq::<char>::empty());
    assert(entries_of(s.objects@, ObjectType::Probe) =~= Seq::<char>::empty());
    assert(entries_of(s.objects@, ObjectType::Source) =~= Seq::<char>::empty());
    assert(r@ =~= empty_document_text());
    r
}

fn header_of(t: ObjectType) -> (r: &'static str)
    ensures
        r@ == section_header(t),
{
    match t {
        ObjectType::Rectangle => "[geometry]",
        ObjectType::Source => "[sources]",
        ObjectType::Probe => "[probes]",
    }
}

/// The file that results from adding `object` to `existing` (or to the empty
/// project file when there is none): the object's entry is inserted in its
/// section. `None`, and nothing to write, for a rectangle that lacks its
/// second corner, permittivity or permeability.
pub fn add_object_to_document(existing: Option<&str>, object: &ProjectObject<String>) -> (r: Option<String>)
    ensures
        r is Some <==> object_text(*object) is Some,
        r matches Some(t) ==> t@ == insert_entry(
            match existing {
                Some(c) => c@,
                None => empty_document_text(),
            },
            section_header(object.object_type),
            object_text(*object).unwrap(),
        ),
{
    let entry = match object_section(object) {
        Some(e) => e,
        None => return None,
    };
    let target = header_of(object.object_type);
    match existing {
        Some(c) => Some(insert_entry_text(c, target, entry.as_str())),
        None => {
            let base = empty_document();
            Some(insert_entry_text(base.as_str(), target, entry.as_str()))
        },
    }
}

/// `pieces` without the pieces equal to `e`.
pub open spec fn without(pieces: Seq<Seq<char>>, e: Seq<char>) -> Seq<Seq<char>>
    decreases pieces.len(),
{
    if pieces.len() == 0 {
        Seq::empty()
    } else if pieces.last() == e {
        without(pieces.drop_last(), e)
    } else {
        without(pieces.drop_last(), e).push(pieces.last())
    }
}

/// How many pieces equal `e`.
pub open spec fn occurrences(pieces: Seq<Seq<char>>, e: Seq<char>) -> nat
    decreases pieces.len(),
{
    if pieces.len() == 0 {
        0
    } else {
        occurrences(pieces.drop_last(), e) + if pieces.last() == e { 1nat } else { 0nat }
    }
}

proof fn lemma_without_push(ps: Seq<Seq<char>>, x: Seq<char>, e: Seq<char>)
    ensures
        without(ps.push(x), e) == if x == e { without(ps, e) } else { without(ps, e).push(x) },
        occurrences(ps.push(x), e) == occurrences(ps, e) + if x == e { 1nat } else { 0nat },
{
    assert(ps.push(x).drop_last() =~= ps);
}

proof fn lemma_scan_keeps_lines(lines: Seq<Seq<char>>, target: Seq<char>, e: Seq<char>)
    ensures
        without(scan(lines, target, e).0, e) == without(lines, e),
        scan(lines, target, e).2 ==> scan(lines, target, e).1,
        occurrences(scan(lines, target, e).0, e) >= occurrences(lines, e) + if scan(lines, target, e).1
            && !scan(lines, target, e).2 {
            1nat
        } else {
            0nat
        },
    decreases lines.len(),
{
    if lines.len() > 0 {
        let prev = lines.drop_last();
        let l = lines.last();
        lemma_scan_keeps_lines(prev, target, e);
        let (p, found, inside) = scan(prev, target, e);
        lemma_without_push(prev, l, e);
        assert(lines =~= prev.push(l));
        lemma_without_push(p, l, e);
        if trim(l) == target {
        } else if inside && opens_table(l) {
            lemma_without_push(p, e, e);
            lemma_without_push(p.push(e), l, e);
        } else {
        }
    }
}

/// Adding an entry keeps every line of the file, in order (only copies of
/// the entry itself are added), and adds the entry at least once.
pub proof fn lemma_insert_keeps_lines_and_adds_entry(lines: Seq<Seq<char>>, target: Seq<char>, e: Seq<char>)
    ensures
        without(insert_pieces(lines, target, e), e) == without(lines, e),
        occurrences(insert_pieces(lines, target, e), e) >= occurrences(lines, e) + 1,
{
    lemma_scan_keeps_lines(lines, target, e);
    let (p, found, inside) = scan(lines, target, e);
    let p2 = p + (if inside { seq![e] } else { Seq::empty() });
    if inside {
        assert(p2 =~= p.push(e));
        lemma_without_push(p, e, e);
    } else {
        assert(p2 =~= p);
    }
    if !found {
        assert(insert_pieces(lines, target, e) =~= p2.push(e));
        lemma_without_push(p2, e, e);
    } else {
        assert(insert_pieces(lines, target, e) =~= p2);
    }
}

/// A line never holds a line feed, so no line equals an entry that ends
/// with one (every object entry does).
pub proof fn lemma_lines_have_no_newline(s: Seq<char>)
    ensures
        forall|i: int, j: int|
            0 <= i < lines_of(s).len() && 0 <= j < lines_of(s)[i].len() ==> lines_of(s)[i][j] != '\n',
    decreases s.len(),
{
    if s.len() > 0 {
        let k = newline_pos(s);
        lemma_newline_pos_bound(s);
        if k < s.len() {
            lemma_lines_have_no_newline(s.skip(k as int + 1));
            let first = strip_cr(s.take(k as int));
            assert forall|j: int| 0 <= j < first.len() implies first[j] != '\n' by {
                lemma_before_newline(s, j);
            }
            assert forall|i: int, j: int|
                0 <= i < lines_of(s).len() && 0 <= j < lines_of(s)[i].len() implies lines_of(s)[i][j]
                != '\n' by {
                if i > 0 {
                    assert(lines_of(s)[i] == lines_of(s.skip(k as int + 1))[i - 1]);
                }
            }
        } else {
            assert forall|j: int| 0 <= j < s.len() implies s[j] != '\n' by {
                lemma_before_newline(s, j);
            }
        }
    }
}

proof fn lemma_newline_pos_bound(s: Seq<char>)
    ensures
        newline_pos(s) <= s.len(),
        newline_pos(s) < s.len() ==> s[newline_pos(s) as int] == '\n',
    decreases s.len(),
{
    if s.len() > 0 && s[0] != '\n' {
        lemma_newline_pos_bound(s.drop_first());
    }
}

proof fn lemma_before_newline(s: Seq<char>, j: int)
    requires
        0 <= j < newline_pos(s),
    ensures
        s[j] != '\n',
    decreases s.len(),
{
    lemma_newline_pos_bound(s);
    assert(s.len() > 0 && s[0] != '\n');
    if j > 0 {
        lemma_before_newline(s.drop_first(), j - 1);
    }
}

proof fn lemma_without_absent(ps: Seq<Seq<char>>, e: Seq<char>)
    requires
        forall|i: int| 0 <= i < ps.len() ==> ps[i] != e,
    ensures
        without(ps, e) == ps,
        occurrences(ps, e) == 0,
    decreases ps.len(),
{
    if ps.len() > 0 {
        lemma_without_absent(ps.drop_last(), e);
        assert(ps.drop_last().push(ps.last()) =~= ps);
    }
}

proof fn lemma_entry_ends_with_newline(o: ProjectObject<String>)
    requires
        object_text(o) is Some,
    ensures
        object_text(o).unwrap().len() > 0,
        object_text(o).unwrap().last() == '\n',
{
    reveal_strlit("  sigma = 0.01\n  color = \"0, 0, 255\"\n");
    reveal_strlit("  color = \"0, 255, 255\"\n");
    reveal_strlit("  type = \"sin\"\n  param1 = \"...\"\n  param2 = \"...\"\n");
}

/// Adding an object to a file keeps every line of the file, in order, and
/// adds the object's entry (a piece that no line of the file equals) at
/// least once.
pub proof fn lemma_added_object_keeps_file(content: Seq<char>, o: ProjectObject<String>)
    requires
        object_text(o) is Some,
    ensures
        without(
            insert_pieces(lines_of(content), section_header(o.object_type), object_text(o).unwrap()),
            object_text(o).unwrap(),
        ) == lines_of(content),
        occurrences(
            insert_pieces(lines_of(content), section_header(o.object_type), object_text(o).unwrap()),
            object_text(o).unwrap(),
        ) >= 1,
{
    let e = object_text(o).unwrap();
    let lines = lines_of(content);
    lemma_entry_ends_with_newline(o);
    lemma_lines_have_no_newline(content);
    assert forall|i: int| 0 <= i < lines.len() implies lines[i] != e by {
        if lines[i] == e {
            assert(lines[i][e.len() - 1] == '\n');
        }
    }
    lemma_without_absent(lines, e);
    lemma_insert_keeps_lines_and_adds_entry(lines, section_header(o.object_type), e);
}

/// The file that objects are added to when there is none yet is exactly the
/// file written for a project with the default description, area and cell
/// sizes "1.0" and "0.01", run time "1.0", and no objects.
pub proof fn lemma_empty_document_is_empty_project(s: ProjectSettings<String>)
    requires
        s.description@ == DEFAULT_DESCRIPTION@,
        s.sizex@ == "1.0"@,
        s.sizey@ == "1.0"@,
        s.dx@ == "0.01"@,
        s.dy@ == "0.01"@,
        s.maxtime@ == "1.0"@,
        s.objects@.len() == 0,
    ensures
        settings_text(s) == empty_document_text(),
{
    reveal_strlit("Временная конфигурация");
    assert(entries_of(s.objects@, ObjectType::Rectangle) =~= Seq::<char>::empty());
    assert(entries_of(s.objects@, ObjectType::Probe) =~= Seq::<char>::empty());
    assert(entries_of(s.objects@, ObjectType::Source) =~= Seq::<char>::empty());
    assert(settings_text(s) =~= empty_document_text());
}

} // verus!
