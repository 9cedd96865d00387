//! Verified text utilities: splitting on a separator, equality, ASCII
//! case-insensitive comparison and containment, and escaping of text that is
//! interpolated into the engine's overlay syntax.

use vstd::prelude::*;

verus! {

/// Index of the first occurrence of `c` in `s`, if any.
pub open spec fn find_char(s: Seq<char>, c: char) -> Option<int>
    decreases s.len(),
{
    if s.len() == 0 {
        None
    } else if s[0] == c {
        Some(0int)
    } else {
        match find_char(s.drop_first(), c) {
            Some(i) => Some(i + 1),
            None => None,
        }
    }
}

pub proof fn lemma_find_char_range(s: Seq<char>, c: char)
    ensures
        match find_char(s, c) {
            Some(i) => 0 <= i < s.len() && s[i] == c,
            None => true,
        },
    decreases s.len(),
{
    if s.len() > 0 && s[0] != c {
        lemma_find_char_range(s.drop_first(), c);
    }
}

/// A scan that saw `c` at `p` and nothing equal to `c` before it has found
/// the first occurrence.
pub proof fn lemma_find_char_at(s: Seq<char>, c: char, p: int)
    requires
        0 <= p < s.len(),
        s[p] == c,
        forall|j: int| 0 <= j < p ==> s[j] != c,
    ensures
        find_char(s, c) == Some(p),
    decreases p,
{
    if p > 0 {
        let t = s.drop_first();
        assert forall|j: int| 0 <= j < p - 1 implies t[j] != c by {
            assert(t[j] == s[j + 1]);
        }
        lemma_find_char_at(t, c, p - 1);
    }
}

pub proof fn lemma_find_char_none(s: Seq<char>, c: char)
    requires
        forall|j: int| 0 <= j < s.len() ==> s[j] != c,
    ensures
        find_char(s, c) is None,
    decreases s.len(),
{
    if s.len() > 0 {
        let t = s.drop_first();
        assert forall|j: int| 0 <= j < t.len() implies t[j] != c by {
            assert(t[j] == s[j + 1]);
        }
        lemma_find_char_none(t, c);
    }
}

/// The pieces of `s` between occurrences of `c`, in order: always one more
/// piece than there are occurrences of `c`.
pub open spec fn split_char(s: Seq<char>, c: char) -> Seq<Seq<char>>
    decreases s.len(),
    via split_char_decreases
{
    match find_char(s, c) {
        None => seq![s],
        Some(i) => seq![s.take(i)] + split_char(s.skip(i + 1), c),
    }
}

#[via_fn]
proof fn split_char_decreases(s: Seq<char>, c: char) {
    lemma_find_char_range(s, c);
}

/// Splits `s` at every occurrence of `c`.
pub fn split_str(s: &str, c: char) -> (r: Vec<String>)
    ensures
        r@.map_values(|t: String| t@) == split_char(s@, c),
        r@.len() >= 1,
{
    let n = s.unicode_len();
    let mut parts: Vec<String> = Vec::new();
    let mut seg_start: usize = 0;
    let mut i: usize = 0;
    proof {
        assert(s@.skip(0) =~= s@);
        assert(parts@.map_values(|t: String| t@) =~= Seq::<Seq<char>>::empty());
        assert(Seq::<Seq<char>>::empty() + split_char(s@, c) =~= split_char(s@, c));
    }
    while i < n
        invariant
            seg_start <= i <= n,
            n == s@.len(),
            forall|j: int| seg_start <= j < i ==> s@[j] != c,
            split_char(s@, c) == parts@.map_values(|t: String| t@) + split_char(
                s@.skip(seg_start as int),
                c,
            ),
        decreases n - i,
    {
        if s.get_char(i) == c {
            let piece = s.substring_char(seg_start, i);
            proof {
                let tail = s@.skip(seg_start as int);
                assert forall|j: int| 0 <= j < i - seg_start implies tail[j] != c by {
                    assert(tail[j] == s@[seg_start + j]);
                }
                lemma_find_char_at(tail, c, i - seg_start);
                assert(tail.take(i - seg_start) =~= s@.subrange(seg_start as int, i as int));
                assert(tail.skip(i - seg_start + 1) =~= s@.skip(i as int + 1));
            }
            let ghost old_parts = parts@;
            parts.push(piece.to_owned());
            proof {
                assert(parts@.map_values(|t: String| t@) =~= old_parts.map_values(
                    |t: String| t@,
                ).push(s@.subrange(seg_start as int, i as int)));
                assert(split_char(s@, c) =~= parts@.map_values(|t: String| t@) + split_char(
                    s@.skip(i as int + 1),
                    c,
                ));
            }
            seg_start = i + 1;
        }
        i += 1;
    }
    let piece = s.substring_char(seg_start, n);
    let ghost old_parts = parts@;
    parts.push(piece.to_owned());
    proof {
        let tail = s@.skip(seg_start as int);
        assert forall|j: int| 0 <= j < tail.len() implies tail[j] != c by {
            assert(tail[j] == s@[seg_start + j]);
        }
        lemma_find_char_none(tail, c);
        assert(tail =~= s@.subrange(seg_start as int, n as int));
        assert(parts@.map_values(|t: String| t@) =~= old_parts.map_values(|t: String| t@).push(
            s@.subrange(seg_start as int, n as int),
        ));
        assert(split_char(s@, c) =~= parts@.map_values(|t: String| t@));
    }
    parts
}

/// Character-wise string equality.
pub fn str_eq(a: &str, b: &str) -> (r: bool)
    ensures
        r == (a@ == b@),
{
    let na = a.unicode_len();
    let nb = b.unicode_len();
    if na != nb {
        return false;
    }
    let mut i: usize = 0;
    while i < na
        invariant
            i <= na,
            na == a@.len() == b@.len(),
            forall|j: int| 0 <= j < i ==> a@[j] == b@[j],
        decreases na - i,
    {
        if a.get_char(i) != b.get_char(i) {
            return false;
        }
        i += 1;
    }
    proof {
        assert(a@ =~= b@);
    }
    true
}

/// ASCII lower-casing of one character; anything but `'A'..='Z'` is kept.
pub open spec fn lower_char(c: char) -> char {
    match c {
        'A' => 'a',
        'B' => 'b',
        'C' => 'c',
        'D' => 'd',
        'E' => 'e',
        'F' => 'f',
        'G' => 'g',
        'H' => 'h',
        'I' => 'i',
        'J' => 'j',
        'K' => 'k',
        'L' => 'l',
        'M' => 'm',
        'N' => 'n',
        'O' => 'o',
        'P' => 'p',
        'Q' => 'q',
        'R' => 'r',
        'S' => 's',
        'T' => 't',
        'U' => 'u',
        'V' => 'v',
        'W' => 'w',
        'X' => 'x',
        'Y' => 'y',
        'Z' => 'z',
        _ => c,
    }
}

/// ASCII lower-casing of a whole sequence.
pub open spec fn lower_seq(s: Seq<char>) -> Seq<char> {
    s.map_values(|c: char| lower_char(c))
}

fn lower_char_exec(c: char) -> (r: char)
    ensures
        r == lower_char(c),
{
    match c {
        'A' => 'a',
        'B' => 'b',
        'C' => 'c',
        'D' => 'd',
        'E' => 'e',
        'F' => 'f',
        'G' => 'g',
        'H' => 'h',
        'I' => 'i',
        'J' => 'j',
        'K' => 'k',
        'L' => 'l',
        'M' => 'm',
        'N' => 'n',
        'O' => 'o',
        'P' => 'p',
        'Q' => 'q',
        'R' => 'r',
        'S' => 's',
        'T' => 't',
        'U' => 'u',
        'V' => 'v',
        'W' => 'w',
        'X' => 'x',
        'Y' => 'y',
        'Z' => 'z',
        _ => c,
    }
}

/// Equality up to ASCII case.
pub fn eq_ignore_case(a: &str, b: &str) -> (r: bool)
    ensures
        r == (lower_seq(a@) == lower_seq(b@)),
{
    let na = a.unicode_len();
    let nb = b.unicode_len();
    if na != nb {
        proof {
            assert(lower_seq(a@).len() != lower_seq(b@).len());
        }
        return false;
    }
    let mut i: usize = 0;
    while i < na
        invariant
            i <= na,
            na == a@.len() == b@.len(),
            forall|j: int| 0 <= j < i ==> lower_char(a@[j]) == lower_char(b@[j]),
        decreases na - i,
    {
        if lower_char_exec(a.get_char(i)) != lower_char_exec(b.get_char(i)) {
            proof {
                assert(lower_seq(a@)[i as int] != lower_seq(b@)[i as int]);
            }
            return false;
        }
        i += 1;
    }
    proof {
        assert(lower_seq(a@) =~= lower_seq(b@));
    }
    true
}

/// `n` occurs in `h` starting at index `i`.
pub open spec fn matches_at(h: Seq<char>, n: Seq<char>, i: int) -> bool {
    0 <= i && i + n.len() <= h.len() && h.subrange(i, i + n.len()) == n
}

/// `n` occurs somewhere in `h`.
pub open spec fn contains_seq(h: Seq<char>, n: Seq<char>) -> bool {
    exists|i: int| matches_at(h, n, i)
}

/// Whether `needle` occurs in `haystack`, comparing up to ASCII case.
pub fn contains_ignore_case(haystack: &str, needle: &str) -> (r: bool)
    ensures
        r == contains_seq(lower_seq(haystack@), lower_seq(needle@)),
{
    let hn = haystack.unicode_len();
    let nn = needle.unicode_len();
    let ghost hl = lower_seq(haystack@);
    let ghost nl = lower_seq(needle@);
    if nn > hn {
        proof {
            assert forall|i: int| !matches_at(hl, nl, i) by {}
        }
        return false;
    }
    let mut i: usize = 0;
    while i <= hn - nn
        invariant
            nn <= hn,
            hn == haystack@.len(),
            nn == needle@.len(),
            hl == lower_seq(haystack@),
            nl == lower_seq(needle@),
            forall|k: int| 0 <= k < i ==> !matches_at(hl, nl, k),
        decreases hn - i,
    {
        let mut j: usize = 0;
        let mut ok: bool = true;
        let ghost mut bad: int = 0;
        while j < nn && ok
            invariant
                i + nn <= hn,
                hn == haystack@.len(),
                nn == needle@.len(),
                hl == lower_seq(haystack@),
                nl == lower_seq(needle@),
                j <= nn,
                ok ==> forall|l: int| 0 <= l < j ==> hl[i + l] == nl[l],
                !ok ==> 0 <= bad < nn && hl[i + bad] != nl[bad],
            decreases nn - j, (if ok { 1int } else { 0int }),
        {
            if lower_char_exec(haystack.get_char(i + j)) != lower_char_exec(needle.get_char(j)) {
                proof {
                    bad = j as int;
                }
                ok = false;
            } else {
                j += 1;
            }
        }
        if ok {
            proof {
                assert(hl.len() == hn && nl.len() == nn);
                assert forall|l: int| 0 <= l < nn implies hl.subrange(i as int, i + nn)[l]
                    == nl[l] by {
                    assert(hl[i + l] == nl[l]);
                    assert(hl.subrange(i as int, i + nn)[l] == hl[i + l]);
                }
                assert(hl.subrange(i as int, i + nn) =~= nl);
                assert(matches_at(hl, nl, i as int));
            }
            return true;
        }
        proof {
            assert(!matches_at(hl, nl, i as int)) by {
                if matches_at(hl, nl, i as int) {
                    assert(hl.subrange(i as int, i + nn)[bad] == hl[i + bad]);
                }
            }
        }
        i += 1;
    }
    proof {
        assert forall|k: int| !matches_at(hl, nl, k) by {
            if 0 <= k && k + nl.len() <= hl.len() {
                assert(k < i);
            }
        }
    }
    false
}

/// Escaping for text interpolated into the engine's overlay syntax: single
/// quotes are removed, colons are escaped with a backslash, everything else
/// is kept.
pub open spec fn escape_overlay_text(s: Seq<char>) -> Seq<char>
    decreases s.len(),
{
    if s.len() == 0 {
        Seq::empty()
    } else if s[0] == '\'' {
        escape_overlay_text(s.drop_first())
    } else if s[0] == ':' {
        seq!['\\', ':'] + escape_overlay_text(s.drop_first())
    } else {
        seq![s[0]] + escape_overlay_text(s.drop_first())
    }
}

/// Escapes caption or thumbnail text so that it cannot break out of the
/// engine's quoted overlay argument.
pub fn escape_text(s: &str) -> (r: String)
    ensures
        r@ == escape_overlay_text(s@),
{
    let n = s.unicode_len();
    let mut out = String::new();
    let mut i: usize = 0;
    proof {
        assert(s@.skip(0) =~= s@);
        assert(out@ + escape_overlay_text(s@) =~= escape_overlay_text(s@));
    }
    while i < n
        invariant
            i <= n,
            n == s@.len(),
            escape_overlay_text(s@) == out@ + escape_overlay_text(s@.skip(i as int)),
        decreases n - i,
    {
        let c = s.get_char(i);
        let ghost tail = s@.skip(i as int);
        proof {
            assert(tail[0] == s@[i as int]);
            assert(tail.drop_first() =~= s@.skip(i as int + 1));
        }
        if c == '\'' {
            proof {
                assert(escape_overlay_text(s@) =~= out@ + escape_overlay_text(
                    s@.skip(i as int + 1),
                ));
            }
        } else if c == ':' {
            out.append("\\:");
            proof {
                reveal_strlit("\\:");
                assert(escape_overlay_text(s@) =~= out@ + escape_overlay_text(
                    s@.skip(i as int + 1),
                ));
            }
        } else {
            let piece = s.substring_char(i, i + 1);
            proof {
                assert(piece@ =~= seq![s@[i as int]]);
            }
            out.append(piece);
            proof {
                assert(escape_overlay_text(s@) =~= out@ + escape_overlay_text(
                    s@.skip(i as int + 1),
                ));
            }
        }
        i += 1;
    }
    proof {
        assert(s@.skip(n as int) =~= Seq::<char>::empty());
        assert(escape_overlay_text(s@) =~= out@);
    }
    out
}

} // verus!
