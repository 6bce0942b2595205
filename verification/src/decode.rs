//! The program decoder: source text to opcodes. Every line-feed-delimited
//! line decodes to one opcode, the count of non-overlapping occurrences of
//! the word `chicken` on that line. Any text decodes; there is no error case.

use vstd::prelude::*;

use crate::numtext::str_chars_vec;

verus! {

/// The counted word, as a character sequence.
pub open spec fn chicken_word() -> Seq<char> {
    seq!['c', 'h', 'i', 'c', 'k', 'e', 'n']
}

/// Whether the counted word occurs at position `i` of `s`.
pub open spec fn word_at(s: Seq<char>, i: int) -> bool {
    &&& i + 7 <= s.len()
    &&& s[i] == 'c'
    &&& s[i + 1] == 'h'
    &&& s[i + 2] == 'i'
    &&& s[i + 3] == 'c'
    &&& s[i + 4] == 'k'
    &&& s[i + 5] == 'e'
    &&& s[i + 6] == 'n'
}

/// The number of non-overlapping occurrences of the counted word at or after
/// position `i`, scanning from the left.
pub open spec fn count_word_from(s: Seq<char>, i: int) -> nat
    decreases s.len() - i,
{
    if i < 0 || i + 7 > s.len() {
        0
    } else if word_at(s, i) {
        1 + count_word_from(s, i + 7)
    } else {
        count_word_from(s, i + 1)
    }
}

/// The number of characters before the first line feed, or the whole length
/// where there is none.
pub open spec fn line_len(s: Seq<char>) -> nat
    decreases s.len(),
{
    if s.len() == 0 {
        0
    } else if s[0] == '\n' {
        0
    } else {
        (1 + line_len(s.skip(1))) as nat
    }
}

pub proof fn lemma_line_len_le(s: Seq<char>)
    ensures
        line_len(s) <= s.len(),
    decreases s.len(),
{
    if s.len() > 0 && s[0] != '\n' {
        lemma_line_len_le(s.skip(1));
    }
}

/// The first line is exactly the stretch before the first line feed.
pub proof fn lemma_line_len_at(t: Seq<char>, k: int)
    requires
        0 <= k <= t.len(),
        forall|j: int| 0 <= j < k ==> t[j] != '\n',
        k == t.len() || t[k] == '\n',
    ensures
        line_len(t) == k,
    decreases k,
{
    if k == 0 {
    } else {
        assert(t[0] != '\n');
        let u = t.skip(1);
        assert forall|j: int| 0 <= j < k - 1 implies u[j] != '\n' by {
            assert(u[j] == t[j + 1]);
        }
        if k < t.len() {
            assert(u[k - 1] == t[k]);
        }
        lemma_line_len_at(u, k - 1);
    }
}

/// The opcodes of a source text: one per line-feed-delimited line, in order.
pub open spec fn opcodes_of(s: Seq<char>) -> Seq<int>
    decreases s.len(),
    via opcodes_of_decreases
{
    let e = line_len(s) as int;
    if e == s.len() {
        seq![count_word_from(s, 0) as int]
    } else {
        seq![count_word_from(s.take(e), 0) as int] + opcodes_of(s.skip(e + 1))
    }
}

#[via_fn]
proof fn opcodes_of_decreases(s: Seq<char>) {
    lemma_line_len_le(s);
}

/// The opcode sequence of a vector of machine opcodes.
pub open spec fn to_ints(s: Seq<isize>) -> Seq<int> {
    s.map_values(|x: isize| x as int)
}

/// Decodes source text into the opcode vector: the count of `chicken`
/// occurrences on each line-feed-delimited line, one opcode per line.
pub fn decode_source(src: &str) -> (r: Vec<isize>)
    ensures
        to_ints(r@) == opcodes_of(src@),
{
    let v = str_chars_vec(src);
    let n = v.len();
    let mut r: Vec<isize> = Vec::new();
    let mut i: usize = 0;
    proof {
        assert(src@.skip(0) =~= src@);
        assert(to_ints(r@) + opcodes_of(src@) =~= opcodes_of(src@));
    }
    loop
        invariant_except_break
            v@ == src@,
            n == v@.len(),
            i <= n,
            to_ints(r@) + opcodes_of(src@.skip(i as int)) == opcodes_of(src@),
        ensures
            to_ints(r@) == opcodes_of(src@),
        decreases n - i,
    {
        let ghost t = src@.skip(i as int);
        // Find the end of the current line.
        let mut e: usize = i;
        while e < n && v[e] != '\n'
            invariant
                v@ == src@,
                n == v@.len(),
                i <= e <= n,
                forall|j: int| i <= j < e ==> src@[j] != '\n',
            decreases n - e,
        {
            e = e + 1;
        }
        proof {
            assert forall|j: int| 0 <= j < e - i implies t[j] != '\n' by {
                assert(t[j] == src@[j + i]);
            }
            if e < n {
                assert(t[e - i] == src@[e as int]);
            }
            lemma_line_len_at(t, e - i);
        }
        // Count the occurrences of the word on the line.
        let ghost line = src@.subrange(i as int, e as int);
        let mut cnt: usize = 0;
        let mut j: usize = i;
        while j < e
            invariant
                v@ == src@,
                n == v@.len(),
                i <= j <= e <= n,
                line == src@.subrange(i as int, e as int),
                7 * cnt <= j - i,
                count_word_from(line, 0) == cnt + count_word_from(line, j - i),
            decreases e - j,
        {
            if e - j >= 7 && v[j] == 'c' && v[j + 1] == 'h' && v[j + 2] == 'i' && v[j + 3] == 'c'
                && v[j + 4] == 'k' && v[j + 5] == 'e' && v[j + 6] == 'n' {
                proof {
                    assert(word_at(line, j - i));
                }
                cnt = cnt + 1;
                j = j + 7;
            } else {
                proof {
                    if j - i + 7 <= e - i {
                        assert(!word_at(line, j - i));
                    }
                }
                j = j + 1;
            }
        }
        proof {
            assert(count_word_from(line, e - i) == 0);
            assert(cnt == count_word_from(line, 0));
            assert(7 * cnt <= n);
            assert(usize::MAX == 2 * (isize::MAX as int) + 1);
        }
        let op = cnt as isize;
        r.push(op);
        proof {
            if e == n {
                assert(line =~= t);
                assert(opcodes_of(t) == seq![count_word_from(t, 0) as int]);
                assert(to_ints(r@) =~= to_ints(r@.drop_last()) + seq![op as int]);
                assert(to_ints(r@) =~= opcodes_of(src@));
            } else {
                assert(line =~= t.take(e - i));
                assert(opcodes_of(t) == seq![count_word_from(t.take(e - i), 0) as int]
                    + opcodes_of(t.skip(e - i + 1)));
                assert(t.skip(e - i + 1) =~= src@.skip(e + 1));
                assert(to_ints(r@) =~= to_ints(r@.drop_last()) + seq![op as int]);
                assert(to_ints(r@) + opcodes_of(src@.skip(e + 1)) =~= opcodes_of(src@));
            }
        }
        if e == n {
            break ;
        }
        i = e + 1;
    }
    r
}

} // verus!
