//! The paths of the sequencer: of scalars in the scene and of files in the
//! project.

use crate::text;
use crate::text::{chars_of, join};
use vstd::prelude::*;

verus! {

/// The place of the first dot at or after `from`; the length where there is
/// none.
pub open spec fn dot_from(s: Seq<char>, from: int) -> int
    decreases s.len() - from,
{
    if from < 0 || from >= s.len() {
        s.len() as int
    } else if s[from] == '.' {
        from
    } else {
        dot_from(s, from + 1)
    }
}

/// The pieces between the dots.
pub open spec fn pieces(s: Seq<char>) -> Seq<Seq<char>>
    decreases s.len(),
{
    let d = dot_from(s, 0);
    if 0 <= d < s.len() {
        seq![s.take(d)] + pieces(s.skip(d + 1))
    } else {
        seq![s]
    }
}

/// The vector component a swizzle letter names.
pub open spec fn swizzle(s: Seq<char>) -> Option<usize> {
    if s == "x"@ || s == "r"@ {
        Some(0usize)
    } else if s == "y"@ || s == "g"@ {
        Some(1usize)
    } else if s == "z"@ || s == "b"@ {
        Some(2usize)
    } else if s == "w"@ || s == "a"@ {
        Some(3usize)
    } else {
        None
    }
}

/// A scalar path: a component, a field of it and at most one swizzle letter.
pub open spec fn scalar_path(s: Seq<char>) -> Option<(Seq<char>, Seq<char>, Option<usize>)> {
    let p = pieces(s);
    if p.len() < 2 || p[0].len() == 0 || p[1].len() == 0 {
        None
    } else if p.len() == 2 {
        Some((p[0], p[1], None))
    } else if p.len() == 3 && swizzle(p[2]) is Some {
        Some((p[0], p[1], swizzle(p[2])))
    } else {
        None
    }
}

fn next_dot(s: &Vec<char>, from: usize) -> (d: usize)
    requires
        from <= s.len(),
    ensures
        d == dot_from(s@, from as int),
        from <= d <= s.len(),
{
    let mut d: usize = from;
    while d < s.len() && s[d] != '.'
        invariant
            from <= d <= s.len(),
            dot_from(s@, from as int) == dot_from(s@, d as int),
        decreases s.len() - d,
    {
        d = d + 1;
    }
    d
}

/// Looking for a dot from a place on is looking for it in what follows.
proof fn lemma_dot_from_skip(s: Seq<char>, at: int, from: int)
    requires
        0 <= at <= from <= s.len(),
    ensures
        dot_from(s, from) == at + dot_from(s.skip(at), from - at),
        from <= dot_from(s, from) <= s.len(),
    decreases s.len() - from,
{
    if from < s.len() && s[from] != '.' {
        lemma_dot_from_skip(s, at, from + 1);
    }
}

pub fn swizzle_index(s: &str) -> (r: Option<usize>)
    ensures
        r == swizzle(s@),
{
    proof {
        reveal_strlit("x");
        reveal_strlit("y");
        reveal_strlit("z");
        reveal_strlit("w");
        reveal_strlit("r");
        reveal_strlit("g");
        reveal_strlit("b");
        reveal_strlit("a");
        assert(s@.len() == 1 ==> s@ =~= seq![s@[0]]);
        assert("x"@ =~= seq!['x']);
        assert("y"@ =~= seq!['y']);
        assert("z"@ =~= seq!['z']);
        assert("w"@ =~= seq!['w']);
        assert("r"@ =~= seq!['r']);
        assert("g"@ =~= seq!['g']);
        assert("b"@ =~= seq!['b']);
        assert("a"@ =~= seq!['a']);
    }
    if s.unicode_len() != 1 {
        return None;
    }
    let c = s.get_char(0);
    if c == 'x' || c == 'r' {
        Some(0)
    } else if c == 'y' || c == 'g' {
        Some(1)
    } else if c == 'z' || c == 'b' {
        Some(2)
    } else if c == 'w' || c == 'a' {
        Some(3)
    } else {
        None
    }
}

/// Split a path into the component, the field and the swizzle, where there is
/// one.
pub fn split_path(path: &str) -> (r: Option<(&str, &str, Option<usize>)>)
    ensures
        match r {
            Some((comp, field, sw)) => scalar_path(path@) == Some((comp@, field@, sw)),
            None => scalar_path(path@) is None,
        },
{
    let chars = chars_of(path);
    let n = chars.len();
    let ghost s = path@;
    let d0 = next_dot(&chars, 0);
    if d0 == n {
        return None;
    }
    let ghost s1 = s.skip(d0 + 1);
    let d1 = next_dot(&chars, d0 + 1);
    proof {
        lemma_dot_from_skip(s, d0 + 1, d0 + 1);
    }
    let comp = path.substring_char(0, d0);
    let field = path.substring_char(d0 + 1, d1);
    proof {
        assert(comp@ =~= s.take(d0 as int));
        if d1 < n {
            assert(field@ =~= s1.take(d1 - d0 - 1));
        } else {
            assert(field@ =~= s1);
        }
        assert(pieces(s) == seq![comp@] + pieces(s1));
        assert(pieces(s)[0] == comp@);
        assert(pieces(s)[1] == pieces(s1)[0]);
        assert(pieces(s1)[0] == field@);
    }
    if d0 == 0 || d1 == d0 + 1 {
        return None;
    }
    if d1 == n {
        return Some((comp, field, None));
    }
    let ghost s2 = s.skip(d1 + 1);
    proof {
        assert(s1.skip(d1 - d0 - 1 + 1) =~= s2);
        lemma_dot_from_skip(s, d1 + 1, d1 + 1);
        assert(pieces(s1) == seq![field@] + pieces(s2));
        assert(pieces(s).len() == 2 + pieces(s2).len());
        assert(pieces(s)[2] == pieces(s2)[0]);
    }
    let d2 = next_dot(&chars, d1 + 1);
    if d2 < n {
        proof {
            let d = dot_from(s2, 0);
            assert(pieces(s2) == seq![s2.take(d)] + pieces(s2.skip(d + 1)));
            lemma_pieces_nonempty(s2.skip(d + 1));
        }
        return None;
    }
    let sw = path.substring_char(d1 + 1, n);
    proof {
        assert(sw@ =~= s2);
        assert(pieces(s2) == seq![s2]);
    }
    match swizzle_index(sw) {
        Some(i) => Some((comp, field, Some(i))),
        None => None,
    }
}

proof fn lemma_pieces_nonempty(s: Seq<char>)
    ensures
        pieces(s).len() >= 1,
    decreases s.len(),
{
}

// ---------------------------------------------------------------- files

/// The characters a file name keeps.
pub open spec fn name_safe(c: char) -> bool {
    'a' <= c <= 'z' || 'A' <= c <= 'Z' || '0' <= c <= '9' || c == '-' || c == '_'
}

/// A name as a file stem: what a file name cannot keep becomes an underscore,
/// and no name becomes `sequence`.
pub open spec fn slug_of(name: Seq<char>) -> Seq<char> {
    if name.len() == 0 {
        "sequence"@
    } else {
        name.map_values(
            |c: char|
                if name_safe(c) {
                    c
                } else {
                    '_'
                },
        )
    }
}

pub fn slug(name: &str) -> (r: String)
    ensures
        r@ == slug_of(name@),
{
    let chars = chars_of(name);
    if chars.len() == 0 {
        return "sequence".to_owned();
    }
    let mut s = String::new();
    let mut i: usize = 0;
    while i < chars.len()
        invariant
            chars@ == name@,
            chars.len() > 0,
            i <= chars.len(),
            s@ == slug_of(name@).take(i as int),
        decreases chars.len() - i,
    {
        let c: char = chars[i];
        let kept = ('a' <= c && c <= 'z') || ('A' <= c && c <= 'Z') || ('0' <= c && c <= '9')
            || c == '-' || c == '_';
        if kept {
            s.push(c);
        } else {
            s.push('_');
        }
        i = i + 1;
    }
    proof {
        assert(slug_of(name@).take(i as int) =~= slug_of(name@));
    }
    s
}

/// The directory of a project's sequences.
pub open spec fn sequences_dir_of(root: Seq<char>) -> Seq<char> {
    text::joined(text::joined(root, ".infinity"@), "sequences"@)
}

/// `<root>/.infinity/sequences`.
pub fn sequences_dir(root: &str) -> (r: String)
    ensures
        r@ == sequences_dir_of(root@),
{
    let home = join(root, ".infinity");
    join(home.as_str(), "sequences")
}

/// `<root>/.infinity/sequences/<slug>.toml`.
pub fn sequence_path(root: &str, name: &str) -> (r: String)
    ensures
        r@ == text::joined(sequences_dir_of(root@), slug_of(name@) + ".toml"@),
{
    let dir = sequences_dir(root);
    let mut file = slug(name);
    file.append(".toml");
    join(dir.as_str(), file.as_str())
}

/// A slug is safe for a file name and is its own slug.
pub proof fn law_slug_is_safe_and_settled(name: Seq<char>)
    ensures
        slug_of(name).len() > 0,
        forall|i: int| 0 <= i < slug_of(name).len() ==> name_safe(#[trigger] slug_of(name)[i]),
        slug_of(slug_of(name)) == slug_of(name),
{
    reveal_strlit("sequence");
    let s = slug_of(name);
    if name.len() == 0 {
        assert(s =~= seq!['s', 'e', 'q', 'u', 'e', 'n', 'c', 'e']);
    }
    assert(slug_of(s) =~= s);
}

/// A sequence file lies in the directory of sequences, and two names share a
/// file exactly where they share a slug.
pub proof fn law_sequence_files(root: Seq<char>, a: Seq<char>, b: Seq<char>)
    ensures
        text::joined(sequences_dir_of(root), slug_of(a) + ".toml"@) == sequences_dir_of(root).push('/')
            + slug_of(a) + ".toml"@,
        slug_of(a) == slug_of(b) <==> text::joined(sequences_dir_of(root), slug_of(a) + ".toml"@)
            == text::joined(sequences_dir_of(root), slug_of(b) + ".toml"@),
{
    reveal_strlit("sequences");
    let dir = sequences_dir_of(root);
    assert("sequences"@.len() == 9 && "sequences"@[8] == 's');
    assert(dir.last() == 's');
    let pa = dir.push('/') + (slug_of(a) + ".toml"@);
    let pb = dir.push('/') + (slug_of(b) + ".toml"@);
    assert(pa =~= dir.push('/') + slug_of(a) + ".toml"@);
    if pa == pb {
        let n = dir.len() + 1;
        let m = slug_of(a).len();
        assert(pa.len() == n + m + ".toml"@.len());
        assert(pb.len() == n + slug_of(b).len() + ".toml"@.len());
        assert(pa.subrange(n as int, (n + m) as int) =~= slug_of(a));
        assert(pb.subrange(n as int, (n + m) as int) =~= slug_of(b));
    }
}

/// A file that may hold a sequence: a name, and `.toml` after it.
pub open spec fn sequence_file(file: Seq<char>) -> bool {
    &&& file.len() > 5
    &&& file.skip(file.len() - 5) == ".toml"@
}

/// Whether a file of the directory of sequences may hold one.
pub fn is_sequence_file(file: &str) -> (r: bool)
    ensures
        r == sequence_file(file@),
{
    proof {
        reveal_strlit(".toml");
        assert(".toml"@ =~= seq!['.', 't', 'o', 'm', 'l']);
    }
    let x = chars_of(file);
    let n: usize = x.len();
    if n <= 5 {
        return false;
    }
    let r = x[n - 5] == '.' && x[n - 4] == 't' && x[n - 3] == 'o' && x[n - 2] == 'm' && x[n - 1]
        == 'l';
    proof {
        let end = file@.skip(file@.len() - 5);
        assert(end.len() == 5);
        assert(end[0] == x[n - 5] && end[1] == x[n - 4] && end[2] == x[n - 3] && end[3] == x[n - 2]
            && end[4] == x[n - 1]);
        if r {
            assert(end =~= ".toml"@);
        }
    }
    r
}

/// Every sequence that is stored is found again: its file may hold one.
pub proof fn law_a_stored_sequence_is_found(name: Seq<char>)
    ensures
        sequence_file(slug_of(name) + ".toml"@),
{
    reveal_strlit(".toml");
    reveal_strlit("sequence");
    let file = slug_of(name) + ".toml"@;
    assert(".toml"@.len() == 5);
    assert(file.skip(file.len() - 5) =~= ".toml"@);
}

proof fn lemma_dot_after(a: Seq<char>, b: Seq<char>, from: int)
    requires
        0 <= from <= a.len(),
        forall|i: int| 0 <= i < a.len() ==> (#[trigger] a[i]) != '.',
    ensures
        dot_from(a.push('.') + b, from) == a.len(),
        dot_from(a, from) == a.len(),
    decreases a.len() - from,
{
    let s = a.push('.') + b;
    if from < a.len() {
        assert(s[from] == a[from]);
        lemma_dot_after(a, b, from + 1);
    } else {
        assert(s[from] == '.');
    }
}

proof fn lemma_first_piece(a: Seq<char>, b: Seq<char>)
    requires
        forall|i: int| 0 <= i < a.len() ==> (#[trigger] a[i]) != '.',
    ensures
        pieces(a.push('.') + b) == seq![a] + pieces(b),
        pieces(a) == seq![a],
{
    let s = a.push('.') + b;
    lemma_dot_after(a, b, 0);
    assert(s.take(a.len() as int) =~= a);
    assert(s.skip(a.len() as int + 1) =~= b);
}

/// A scalar path names a component and a field with a dot between them, and where
/// it reaches into a vector one letter after another dot: `x`, `y`, `z` and `w`, or
/// `r`, `g`, `b` and `a`, for its four places. Any other letter, a longer word, and
/// a name without a dot are no scalar path.
pub proof fn law_scalar_paths(comp: Seq<char>, field: Seq<char>, letter: char, word: Seq<char>)
    requires
        comp.len() > 0,
        field.len() > 0,
        forall|i: int| 0 <= i < comp.len() ==> (#[trigger] comp[i]) != '.',
        forall|i: int| 0 <= i < field.len() ==> (#[trigger] field[i]) != '.',
        forall|i: int| 0 <= i < word.len() ==> (#[trigger] word[i]) != '.',
        word.len() != 1,
        letter != '.',
    ensures
        scalar_path(comp) is None,
        scalar_path(comp.push('.') + field) == Some((comp, field, None::<usize>)),
        scalar_path(comp.push('.') + (field.push('.') + seq![letter])) == (if letter == 'x' || letter
            == 'r' {
            Some((comp, field, Some(0usize)))
        } else if letter == 'y' || letter == 'g' {
            Some((comp, field, Some(1usize)))
        } else if letter == 'z' || letter == 'b' {
            Some((comp, field, Some(2usize)))
        } else if letter == 'w' || letter == 'a' {
            Some((comp, field, Some(3usize)))
        } else {
            None
        }),
        scalar_path(comp.push('.') + (field.push('.') + word)) is None,
{
    let one = seq![letter];
    lemma_first_piece(comp, field);
    lemma_first_piece(field, one);
    lemma_first_piece(field, word);
    lemma_first_piece(comp, field.push('.') + one);
    lemma_first_piece(comp, field.push('.') + word);
    lemma_first_piece(one, one);
    lemma_first_piece(word, word);
    reveal_strlit("x");
    reveal_strlit("y");
    reveal_strlit("z");
    reveal_strlit("w");
    reveal_strlit("r");
    reveal_strlit("g");
    reveal_strlit("b");
    reveal_strlit("a");
    assert("x"@ =~= seq!['x'] && "y"@ =~= seq!['y'] && "z"@ =~= seq!['z'] && "w"@ =~= seq!['w']);
    assert("r"@ =~= seq!['r'] && "g"@ =~= seq!['g'] && "b"@ =~= seq!['b'] && "a"@ =~= seq!['a']);
    assert(one[0] == letter);
    let p = seq![comp] + (seq![field] + seq![one]);
    let q = seq![comp] + (seq![field] + seq![word]);
    assert(p.len() == 3 && p[0] == comp && p[1] == field && p[2] == one);
    assert(q.len() == 3 && q[0] == comp && q[1] == field && q[2] == word);
    let r = seq![comp] + seq![field];
    assert(r.len() == 2 && r[0] == comp && r[1] == field);
}

/// The name of a sequence's file is its own name, character by character, with an
/// underscore for what a file name cannot keep.
pub proof fn law_slug_keeps_what_it_can(name: Seq<char>, i: int)
    requires
        0 <= i < name.len(),
    ensures
        slug_of(name).len() == name.len(),
        ({
            let c = name[i];
            let kept = 'a' <= c <= 'z' || 'A' <= c <= 'Z' || '0' <= c <= '9' || c == '-' || c == '_';
            slug_of(name)[i] == (if kept {
                c
            } else {
                '_'
            })
        }),
{
}

} // verus!
