use vstd::prelude::*;

verus! {

/// How many extra screen rows a text of `len` bytes takes when rows are
/// `width` bytes wide: the number of times `width` can be taken off `len`
/// while more than `width` is left.
pub open spec fn wrap_count(len: nat, width: nat) -> nat {
    if len <= width || width == 0 {
        0
    } else {
        ((len - 1) as nat / width) as nat
    }
}

/// The number of extra rows that a text of `len` bytes wraps onto when each
/// row holds `width` bytes.
pub fn wraps_for_len(len: usize, width: usize) -> (t: usize)
    requires
        width > 0 || len == 0,
    ensures
        t == wrap_count(len as nat, width as nat),
{
    let mut rest: usize = len;
    let mut t: usize = 0;
    while rest > width
        invariant
            width > 0 || len == 0,
            rest <= len,
            t * width + rest == len,
            t <= len,
            len > 0 ==> rest > 0,
        decreases rest,
    {
        assert(t < len) by (nonlinear_arith)
            requires
                t * width + rest == len,
                rest > width,
                width >= 1;
        rest = rest - width;
        t = t + 1;
        assert(t * width == (t - 1) * width + width) by (nonlinear_arith);
    }
    proof {
        if len > width && width > 0 {
            assert(1 <= rest <= width);
            assert((len - 1) as int == t as int * width as int + (rest - 1) as int);
            vstd::arithmetic::div_mod::lemma_fundamental_div_mod_converse(
                (len - 1) as int,
                width as int,
                t as int,
                (rest - 1) as int,
            );
        } else if len > 0 {
            assert(t == 0) by (nonlinear_arith)
                requires
                    t * width + rest == len,
                    rest > 0,
                    len <= width;
        }
    }
    t
}

/// The number of extra screen rows that `text` takes when each row holds
/// `width` bytes.
pub fn line_wrap_count(text: &str, width: usize) -> (t: usize)
    requires
        width > 0 || text.len() == 0,
    ensures
        t == wrap_count(text.len() as nat, width as nat),
{
    wraps_for_len(text.len(), width)
}

} // verus!
