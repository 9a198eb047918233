use vstd::prelude::*;

verus! {

/// The number of bytes that `c` takes in UTF-8.
pub open spec fn char_width(c: char) -> nat {
    if (c as u32) < 0x80 {
        1
    } else if (c as u32) < 0x800 {
        2
    } else if (c as u32) < 0x10000 {
        3
    } else {
        4
    }
}

/// The number of bytes that the text `s` takes in UTF-8.
pub open spec fn byte_len(s: Seq<char>) -> nat
    decreases s.len(),
{
    if s.len() == 0 {
        0
    } else {
        byte_len(s.drop_last()) + char_width(s.last())
    }
}

/// The byte position at which the character with index `i` of `s` starts.
pub open spec fn byte_offset(s: Seq<char>, i: int) -> nat {
    byte_len(s.take(i))
}

/// Byte position `b` lies between two characters of `s` (or at either end).
pub open spec fn is_boundary(s: Seq<char>, b: int) -> bool {
    exists|i: int| 0 <= i <= s.len() && #[trigger] byte_offset(s, i) == b
}

/// The index of the character that starts at byte position `b` of `s`
/// (the length of `s` for its end), where `b` is a boundary.
pub open spec fn boundary_index(s: Seq<char>, b: int) -> int {
    choose|i: int| 0 <= i <= s.len() && #[trigger] byte_offset(s, i) == b
}

/// `n` spaces.
pub open spec fn spaces(n: nat) -> Seq<char> {
    Seq::new(n, |i: int| ' ')
}

/// The number of spaces that `s` starts with.
pub open spec fn leading_spaces(s: Seq<char>) -> nat
    decreases s.len(),
{
    if s.len() == 0 || s[0] != ' ' {
        0
    } else {
        1 + leading_spaces(s.drop_first())
    }
}

/// The byte length of a concatenation is the sum of the byte lengths.
pub proof fn lemma_byte_len_concat(a: Seq<char>, b: Seq<char>)
    ensures
        byte_len(a + b) == byte_len(a) + byte_len(b),
    decreases b.len(),
{
    if b.len() == 0 {
        assert(a + b =~= a);
    } else {
        assert((a + b).drop_last() =~= a + b.drop_last());
        assert((a + b).last() == b.last());
        lemma_byte_len_concat(a, b.drop_last());
    }
}

/// Cutting a text in two keeps its bytes.
pub proof fn lemma_byte_len_take_skip(s: Seq<char>, i: int)
    requires
        0 <= i <= s.len(),
    ensures
        byte_len(s.take(i)) + byte_len(s.skip(i)) == byte_len(s),
{
    assert(s.take(i) + s.skip(i) =~= s);
    lemma_byte_len_concat(s.take(i), s.skip(i));
}

/// One character takes its width.
pub proof fn lemma_byte_len_single(c: char)
    ensures
        byte_len(seq![c]) == char_width(c),
{
    assert(seq![c].drop_last() =~= Seq::<char>::empty());
    assert(byte_len(Seq::<char>::empty()) == 0);
    assert(seq![c].last() == c);
}

/// Inserting a character adds its width.
pub proof fn lemma_byte_len_insert(s: Seq<char>, i: int, c: char)
    requires
        0 <= i <= s.len(),
    ensures
        byte_len(s.insert(i, c)) == byte_len(s) + char_width(c),
{
    assert(s.insert(i, c) =~= s.take(i) + seq![c] + s.skip(i));
    lemma_byte_len_concat(s.take(i) + seq![c], s.skip(i));
    lemma_byte_len_concat(s.take(i), seq![c]);
    lemma_byte_len_single(c);
    lemma_byte_len_take_skip(s, i);
}

/// Removing a character takes its width off.
pub proof fn lemma_byte_len_remove(s: Seq<char>, i: int)
    requires
        0 <= i < s.len(),
    ensures
        byte_len(s.remove(i)) + char_width(s[i]) == byte_len(s),
{
    assert(s.remove(i) =~= s.take(i) + s.skip(i + 1));
    assert(s =~= s.take(i) + seq![s[i]] + s.skip(i + 1));
    lemma_byte_len_concat(s.take(i) + seq![s[i]], s.skip(i + 1));
    lemma_byte_len_concat(s.take(i), seq![s[i]]);
    lemma_byte_len_concat(s.take(i), s.skip(i + 1));
    lemma_byte_len_single(s[i]);
}

/// A text starts with no more spaces than it has characters.
pub proof fn lemma_leading_spaces_at_most(s: Seq<char>)
    ensures
        leading_spaces(s) <= s.len(),
    decreases s.len(),
{
    if s.len() > 0 && s[0] == ' ' {
        lemma_leading_spaces_at_most(s.drop_first());
    }
}

/// Text takes at least one byte per character.
pub proof fn lemma_byte_len_at_least_len(s: Seq<char>)
    ensures
        s.len() <= byte_len(s),
    decreases s.len(),
{
    if s.len() > 0 {
        lemma_byte_len_at_least_len(s.drop_last());
    }
}

/// Text of spaces takes one byte per space.
pub proof fn lemma_byte_len_spaces(n: nat)
    ensures
        byte_len(spaces(n)) == n,
    decreases n,
{
    if n > 0 {
        assert(spaces(n).drop_last() =~= spaces((n - 1) as nat));
        lemma_byte_len_spaces((n - 1) as nat);
    }
}

/// The start of the next character is the start of this one plus its width.
pub proof fn lemma_byte_offset_step(s: Seq<char>, i: int)
    requires
        0 <= i < s.len(),
    ensures
        byte_offset(s, i + 1) == byte_offset(s, i) + char_width(s[i]),
{
    assert(s.take(i + 1).drop_last() =~= s.take(i));
}

/// Character starts grow strictly with the index.
pub proof fn lemma_byte_offset_strict(s: Seq<char>, i: int, j: int)
    requires
        0 <= i < j <= s.len(),
    ensures
        byte_offset(s, i) < byte_offset(s, j),
    decreases j - i,
{
    lemma_byte_offset_step(s, j - 1);
    if i < j - 1 {
        lemma_byte_offset_strict(s, i, j - 1);
    }
}

/// The offset of the end of `s` is its byte length.
pub proof fn lemma_byte_offset_end(s: Seq<char>)
    ensures
        byte_offset(s, s.len() as int) == byte_len(s),
{
    assert(s.take(s.len() as int) =~= s);
}

/// A boundary belongs to exactly one character index.
pub proof fn lemma_boundary_index(s: Seq<char>, b: int, i: int)
    requires
        0 <= i <= s.len(),
        byte_offset(s, i) == b,
    ensures
        is_boundary(s, b),
        boundary_index(s, b) == i,
{
    let k = boundary_index(s, b);
    if k < i {
        lemma_byte_offset_strict(s, k, i);
    } else if i < k {
        lemma_byte_offset_strict(s, i, k);
    }
}

/// Appends `n` spaces to `v`.
pub fn push_spaces(v: &mut Vec<char>, n: usize)
    ensures
        final(v)@ == old(v)@ + spaces(n as nat),
{
    let mut j: usize = 0;
    while j < n
        invariant
            j <= n,
            v@ == old(v)@ + spaces(j as nat),
        decreases n - j,
    {
        v.push(' ');
        j = j + 1;
        assert(v@ =~= old(v)@ + spaces(j as nat));
    }
}

/// The UTF-8 width of `c`.
pub fn char_width_of(c: char) -> (w: usize)
    ensures
        w == char_width(c),
{
    let v: u32 = c as u32;
    if v < 0x80 {
        1
    } else if v < 0x800 {
        2
    } else if v < 0x10000 {
        3
    } else {
        4
    }
}

/// The UTF-8 byte length of `line`.
pub fn byte_len_of(line: &Vec<char>) -> (n: usize)
    requires
        byte_len(line@) <= usize::MAX,
    ensures
        n == byte_len(line@),
{
    let mut n: usize = 0;
    let mut i: usize = 0;
    while i < line.len()
        invariant
            i <= line.len(),
            n == byte_offset(line@, i as int),
            byte_len(line@) <= usize::MAX,
        decreases line.len() - i,
    {
        proof {
            lemma_byte_offset_step(line@, i as int);
            if i + 1 < line.len() {
                lemma_byte_offset_strict(line@, i + 1, line.len() as int);
            }
            lemma_byte_offset_end(line@);
        }
        n = n + char_width_of(line[i]);
        i = i + 1;
    }
    proof {
        lemma_byte_offset_end(line@);
    }
    n
}

/// Whether `line` takes no more than `isize::MAX` bytes in UTF-8, as any
/// string does.
pub fn fits_in_string(line: &Vec<char>) -> (b: bool)
    ensures
        b == (byte_len(line@) <= isize::MAX),
{
    let mut n: usize = 0;
    let mut i: usize = 0;
    while i < line.len()
        invariant
            i <= line.len(),
            n == byte_offset(line@, i as int),
            n <= isize::MAX,
        decreases line.len() - i,
    {
        proof {
            lemma_byte_offset_step(line@, i as int);
        }
        let w = char_width_of(line[i]);
        if w > (isize::MAX as usize) - n {
            proof {
                lemma_byte_len_take_skip(line@, i + 1);
            }
            return false;
        }
        n = n + w;
        i = i + 1;
    }
    proof {
        lemma_byte_offset_end(line@);
    }
    true
}

/// The index of the character of `line` that starts at byte `b` (the length
/// of `line` for its end), or `None` where `b` falls inside a character or
/// past the end.
pub fn char_index_at_byte(line: &Vec<char>, b: usize) -> (r: Option<usize>)
    ensures
        r is Some <==> is_boundary(line@, b as int),
        r matches Some(i) ==> i == boundary_index(line@, b as int) && i <= line@.len()
            && byte_offset(line@, i as int) == b,
{
    let mut acc: usize = 0;
    let mut i: usize = 0;
    while i < line.len() && acc < b
        invariant
            i <= line.len(),
            acc == byte_offset(line@, i as int),
            acc <= b,
        decreases line.len() - i,
    {
        proof {
            lemma_byte_offset_step(line@, i as int);
        }
        let w = char_width_of(line[i]);
        if w > b - acc {
            proof {
                assert forall|k: int| 0 <= k <= line@.len() implies #[trigger] byte_offset(
                    line@,
                    k,
                ) != b by {
                    if k <= i {
                        if k < i {
                            lemma_byte_offset_strict(line@, k, i as int);
                        }
                    } else {
                        if k > i + 1 {
                            lemma_byte_offset_strict(line@, i + 1, k);
                        }
                    }
                }
            }
            return None;
        }
        acc = acc + w;
        i = i + 1;
    }
    if acc == b {
        proof {
            lemma_boundary_index(line@, b as int, i as int);
        }
        Some(i)
    } else {
        proof {
            assert(i == line.len());
            assert forall|k: int| 0 <= k <= line@.len() implies #[trigger] byte_offset(line@, k)
                != b by {
                if k < i {
                    lemma_byte_offset_strict(line@, k, i as int);
                }
            }
        }
        None
    }
}

/// The number of spaces that `line` starts with.
pub fn count_leading_spaces(line: &Vec<char>) -> (n: usize)
    ensures
        n == leading_spaces(line@),
{
    let mut i: usize = 0;
    assert(line@.skip(0) =~= line@);
    while i < line.len() && line[i] == ' '
        invariant
            i <= line.len(),
            forall|k: int| 0 <= k < i ==> line@[k] == ' ',
            leading_spaces(line@) == i + leading_spaces(line@.skip(i as int)),
        decreases line.len() - i,
    {
        assert(line@.skip(i as int).drop_first() =~= line@.skip(i + 1));
        i = i + 1;
    }
    proof {
        if i < line.len() {
            assert(line@.skip(i as int)[0] == line@[i as int]);
        }
    }
    i
}

} // verus!
