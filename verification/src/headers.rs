use vstd::prelude::*;
use vstd::string::*;

verus! {

// A protocol head is an ordered sequence of text lines: the request or status
// line first, then `Name: value` pairs in receipt order.  Lookup, upsert and
// removal all key on the first line whose text starts with `"<name>: "`.

/// True when `line` is a header line for `name`: it starts with the name,
/// followed by a colon and a single space.
pub open spec fn is_header_line(line: Seq<char>, name: Seq<char>) -> bool {
    &&& line.len() >= name.len() + 2
    &&& (forall|i: int| 0 <= i < name.len() ==> line[i] == name[i])
    &&& line[name.len() as int] == ':'
    &&& line[name.len() + 1 as int] == ' '
}

/// The value carried by a header line for `name`: everything after the
/// `"<name>: "` prefix, kept verbatim (no trimming).
pub open spec fn header_line_value(line: Seq<char>, name: Seq<char>) -> Seq<char> {
    line.skip(name.len() + 2 as int)
}

/// The text of a header line built from a name and a value.
pub open spec fn rendered_line(name: Seq<char>, value: Seq<char>) -> Seq<char> {
    name + seq![':', ' '] + value
}

/// The position of the first line matching `name`, or `lines.len()` when no
/// line matches.
pub open spec fn match_index(lines: Seq<Seq<char>>, name: Seq<char>) -> int
    decreases lines.len(),
{
    if lines.len() == 0 {
        0
    } else if is_header_line(lines[0], name) {
        0
    } else {
        1 + match_index(lines.skip(1), name)
    }
}

/// The value of the first line matching `name`, if any line matches.
pub open spec fn lookup_header(lines: Seq<Seq<char>>, name: Seq<char>) -> Option<Seq<char>> {
    if match_index(lines, name) < lines.len() {
        Some(header_line_value(lines[match_index(lines, name)], name))
    } else {
        None
    }
}

/// The store after an upsert: the first matching line is replaced in place,
/// or one new line is appended when no line matches.
pub open spec fn upsert_header(lines: Seq<Seq<char>>, name: Seq<char>, value: Seq<char>) -> Seq<
    Seq<char>,
> {
    if match_index(lines, name) < lines.len() {
        lines.update(match_index(lines, name), rendered_line(name, value))
    } else {
        lines.push(rendered_line(name, value))
    }
}

/// The store after a removal: the first matching line is deleted, or the
/// store is unchanged when no line matches.
pub open spec fn drop_header(lines: Seq<Seq<char>>, name: Seq<char>) -> Seq<Seq<char>> {
    if match_index(lines, name) < lines.len() {
        lines.remove(match_index(lines, name))
    } else {
        lines
    }
}

/// `match_index` points at the first matching line: it stays within bounds,
/// the line there matches when one exists, and no earlier line matches.
pub proof fn lemma_match_index(lines: Seq<Seq<char>>, name: Seq<char>)
    ensures
        0 <= match_index(lines, name) <= lines.len(),
        match_index(lines, name) < lines.len() ==> is_header_line(
            lines[match_index(lines, name)],
            name,
        ),
        forall|j: int|
            0 <= j < match_index(lines, name) ==> !is_header_line(#[trigger] lines[j], name),
    decreases lines.len(),
{
    if lines.len() == 0 {
    } else if is_header_line(lines[0], name) {
    } else {
        lemma_match_index(lines.skip(1), name);
        assert forall|j: int|
            0 <= j < match_index(lines, name) implies !is_header_line(
            #[trigger] lines[j],
            name,
        ) by {
            if j > 0 {
                assert(lines.skip(1)[j - 1] == lines[j]);
            }
        }
    }
}

/// A lookup misses exactly when no stored line matches the name.
pub proof fn lemma_lookup_none(lines: Seq<Seq<char>>, name: Seq<char>)
    ensures
        lookup_header(lines, name) is None <==> forall|i: int|
            0 <= i < lines.len() ==> !is_header_line(#[trigger] lines[i], name),
{
    lemma_match_index(lines, name);
    if lookup_header(lines, name) is None {
        assert forall|i: int|
            0 <= i < lines.len() implies !is_header_line(#[trigger] lines[i], name) by {}
    }
}

/// Upserting replaces the first matching line in place, keeping its position
/// and every other line; when no line matches, it appends exactly one line.
pub proof fn lemma_upsert_in_place(lines: Seq<Seq<char>>, name: Seq<char>, value: Seq<char>)
    ensures
        (exists|i: int| 0 <= i < lines.len() && is_header_line(#[trigger] lines[i], name)) ==> {
            let k = match_index(lines, name);
            let up = upsert_header(lines, name, value);
            &&& 0 <= k < lines.len()
            &&& is_header_line(lines[k], name)
            &&& up.len() == lines.len()
            &&& up[k] == rendered_line(name, value)
            &&& forall|j: int| 0 <= j < lines.len() && j != k ==> up[j] == lines[j]
        },
        (forall|i: int|
            0 <= i < lines.len() ==> !is_header_line(#[trigger] lines[i], name)) ==> upsert_header(
            lines,
            name,
            value,
        ) == lines.push(rendered_line(name, value)),
{
    lemma_match_index(lines, name);
    if exists|i: int| 0 <= i < lines.len() && is_header_line(#[trigger] lines[i], name) {
        let i = choose|i: int| 0 <= i < lines.len() && is_header_line(#[trigger] lines[i], name);
        assert(match_index(lines, name) <= i);
    }
}

/// True when the stored line matches the name, decided character by
/// character.
fn line_matches(line: &String, name: &str) -> (b: bool)
    ensures
        b == is_header_line(line@, name@),
{
    let ln = line.as_str().unicode_len();
    let nn = name.unicode_len();
    if ln < 2 || ln - 2 < nn {
        return false;
    }
    let mut i: usize = 0;
    while i < nn
        invariant
            i <= nn,
            nn == name@.len(),
            ln == line@.len(),
            ln >= 2 && ln - 2 >= nn,
            forall|j: int| 0 <= j < i ==> line@[j] == name@[j],
        decreases nn - i,
    {
        if line.as_str().get_char(i) != name.get_char(i) {
            return false;
        }
        i += 1;
    }
    if line.as_str().get_char(nn) != ':' {
        return false;
    }
    if line.as_str().get_char(nn + 1) != ' ' {
        return false;
    }
    true
}

/// The position of the first line matching `name`, if any line matches.
fn find_header_index(lines: &Vec<String>, name: &str) -> (r: Option<usize>)
    ensures
        match r {
            Some(i) => i < lines.len() && match_index(lines.deep_view(), name@) == i,
            None => match_index(lines.deep_view(), name@) == lines.deep_view().len(),
        },
{
    proof {
        lemma_match_index(lines.deep_view(), name@);
    }
    let mut i: usize = 0;
    let n = lines.len();
    while i < n
        invariant
            i <= n,
            n == lines.len(),
            lines.deep_view().len() == n,
            forall|j: int|
                0 <= j < i ==> !is_header_line(#[trigger] lines.deep_view()[j], name@),
            0 <= match_index(lines.deep_view(), name@) <= n,
            match_index(lines.deep_view(), name@) < n ==> is_header_line(
                lines.deep_view()[match_index(lines.deep_view(), name@)],
                name@,
            ),
            forall|j: int|
                0 <= j < match_index(lines.deep_view(), name@) ==> !is_header_line(
                    #[trigger] lines.deep_view()[j],
                    name@,
                ),
        decreases n - i,
    {
        let hit = line_matches(&lines[i], name);
        proof {
            assert(lines.deep_view()[i as int] == lines@[i as int]@);
        }
        if hit {
            return Some(i);
        }
        i += 1;
    }
    None
}

/// Extracts a header value from the stored lines: the value of the first
/// line that starts with `"<name>: "`, or nothing when no line does.
pub fn read_header(lines: &Vec<String>, name: &str) -> (r: Option<String>)
    ensures
        match r {
            Some(v) => lookup_header(lines.deep_view(), name@) == Some(v@),
            None => lookup_header(lines.deep_view(), name@) is None,
        },
{
    match find_header_index(lines, name) {
        Some(i) => {
            proof {
                lemma_match_index(lines.deep_view(), name@);
                assert(lines.deep_view()[i as int] == lines@[i as int]@);
            }
            let line = &lines[i];
            let ln = line.as_str().unicode_len();
            let nn = name.unicode_len();
            let value = line.as_str().substring_char(nn + 2, ln);
            proof {
                assert(value@ =~= header_line_value(lines.deep_view()[i as int], name@));
            }
            Some(String::from_str(value))
        },
        None => None,
    }
}

/// Builds the line `"<name>: <value>"`.
fn render_header_line(name: &str, value: &str) -> (r: String)
    ensures
        r@ == rendered_line(name@, value@),
{
    proof {
        reveal_strlit(": ");
        assert(": "@ =~= seq![':', ' ']);
    }
    let mut s = String::from_str(name);
    s.append(": ");
    s.append(value);
    proof {
        assert(s@ =~= rendered_line(name@, value@));
    }
    s
}

/// Inserts or replaces a header among the stored lines: the first line that
/// starts with `"<name>: "` is replaced in place, and when no line does, one
/// new line is appended at the end.
pub fn write_header(lines: &mut Vec<String>, name: &str, value: &str)
    ensures
        final(lines).deep_view() == upsert_header(old(lines).deep_view(), name@, value@),
{
    let ghost lines0 = old(lines).deep_view();
    let rendered = render_header_line(name, value);
    match find_header_index(lines, name) {
        Some(i) => {
            lines.remove(i);
            lines.insert(i, rendered);
            proof {
                assert(lines.deep_view() =~= lines0.update(i as int, rendered_line(name@, value@)));
            }
        },
        None => {
            lines.push(rendered);
            proof {
                assert(lines.deep_view() =~= lines0.push(rendered_line(name@, value@)));
            }
        },
    }
}

/// Deletes the first header line matching `name`; does nothing when no line
/// matches.
pub fn remove_header(lines: &mut Vec<String>, name: &str)
    ensures
        final(lines).deep_view() == drop_header(old(lines).deep_view(), name@),
{
    let ghost lines0 = old(lines).deep_view();
    match find_header_index(lines, name) {
        Some(i) => {
            lines.remove(i);
            proof {
                assert(lines.deep_view() =~= lines0.remove(i as int));
            }
        },
        None => {},
    }
}

} // verus!
