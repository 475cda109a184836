//! Single-byte text fields: null-padded, read up to the first null, and
//! required to be valid UTF-8.

use vstd::prelude::*;

verus! {

/// The bytes of `s` before its first null.
pub open spec fn text_part(s: Seq<u8>) -> Seq<u8>
    decreases s.len(),
{
    if s.len() == 0 {
        s
    } else if s[0] == 0 {
        Seq::empty()
    } else {
        seq![s[0]] + text_part(s.drop_first())
    }
}

/// Whether a byte sequence is valid UTF-8: what `std::str::from_utf8` accepts.
pub uninterp spec fn utf8_valid(s: Seq<u8>) -> bool;

/// Relies on `std::str::from_utf8`: it accepts a byte sequence or not according
/// to the bytes alone, and accepts the empty one.
#[verifier::external_body]
fn is_utf8(b: &[u8]) -> (r: bool)
    ensures
        r == utf8_valid(b@),
        b@.len() == 0 ==> r,
{
    std::str::from_utf8(b).is_ok()
}

proof fn lemma_text_part(s: Seq<u8>, k: int)
    requires
        0 <= k <= s.len(),
        forall|m: int| 0 <= m < k ==> s[m] != 0,
        k == s.len() || s[k] == 0,
    ensures
        text_part(s) == s.subrange(0, k),
    decreases s.len(),
{
    if s.len() == 0 {
        assert(s.subrange(0, 0) =~= s);
    } else if k == 0 {
        assert(s.subrange(0, 0) =~= Seq::<u8>::empty());
    } else {
        let t = s.drop_first();
        assert forall|m: int| 0 <= m < k - 1 implies t[m] != 0 by {
            assert(t[m] == s[m + 1]);
        }
        lemma_text_part(t, k - 1);
        assert(s.subrange(0, k) =~= seq![s[0]] + t.subrange(0, k - 1));
    }
}

/// The bytes of a null-padded single-byte string before its first null.
pub fn until_nul(s: &Vec<u8>) -> (r: Vec<u8>)
    ensures
        r@ == text_part(s@),
{
    let mut r: Vec<u8> = Vec::new();
    let mut k: usize = 0;
    while k < s.len() && s[k] != 0
        invariant
            k <= s@.len(),
            r@ == s@.subrange(0, k as int),
            forall|i: int| 0 <= i < k ==> s@[i] != 0,
        decreases s@.len() - k,
    {
        r.push(s[k]);
        k += 1;
        assert(r@ =~= s@.subrange(0, k as int));
    }
    proof {
        lemma_text_part(s@, k as int);
    }
    r
}

/// Whether the text of a null-padded string is valid UTF-8.
pub fn valid_text(s: &Vec<u8>) -> (r: bool)
    ensures
        r == utf8_valid(text_part(s@)),
{
    let t = until_nul(s);
    is_utf8(t.as_slice())
}

} // verus!

verus! {

/// Whether a UTF-16 unit is white space as `str::trim` counts it (every
/// Unicode white-space character lies in the basic plane).
pub open spec fn is_white(u: u16) -> bool {
    (0x09 <= u <= 0x0D) || u == 0x20 || u == 0x85 || u == 0xA0 || u == 0x1680 || (0x2000 <= u
        <= 0x200A) || u == 0x2028 || u == 0x2029 || u == 0x202F || u == 0x205F || u == 0x3000
}

/// `s` without its leading white space.
pub open spec fn trim_start(s: Seq<u16>) -> Seq<u16>
    decreases s.len(),
{
    if s.len() > 0 && is_white(s[0]) {
        trim_start(s.drop_first())
    } else {
        s
    }
}

/// `s` without its trailing white space.
pub open spec fn trim_end(s: Seq<u16>) -> Seq<u16>
    decreases s.len(),
{
    if s.len() > 0 && is_white(s.last()) {
        trim_end(s.drop_last())
    } else {
        s
    }
}

fn white(u: u16) -> (r: bool)
    ensures
        r == is_white(u),
{
    (0x09 <= u && u <= 0x0D) || u == 0x20 || u == 0x85 || u == 0xA0 || u == 0x1680 || (0x2000 <= u
        && u <= 0x200A) || u == 0x2028 || u == 0x2029 || u == 0x202F || u == 0x205F || u == 0x3000
}

/// A requested display name: the units before the first null, without leading
/// and trailing white space.
pub fn trim_name(units: &Vec<u16>) -> (r: Vec<u16>)
    ensures
        r@ == trim_end(trim_start(crate::lobby::until_null(units@))),
{
    let s = crate::lobby::terminated(units);
    let ghost full = s@;
    let mut a: usize = 0;
    assert(full.subrange(0, full.len() as int) == full);
    while a < s.len() && white(s[a])
        invariant
            a <= full.len(),
            full == s@,
            trim_start(full) == trim_start(full.subrange(a as int, full.len() as int)),
        decreases full.len() - a,
    {
        proof {
            let t = full.subrange(a as int, full.len() as int);
            assert(t.drop_first() == full.subrange(a + 1, full.len() as int));
        }
        a += 1;
    }
    proof {
        assert(full.subrange(0, full.len() as int) == full);
    }
    let mut b: usize = s.len();
    while b > a && white(s[b - 1])
        invariant
            a <= b <= full.len(),
            full == s@,
            trim_start(full) == full.subrange(a as int, full.len() as int),
            trim_end(trim_start(full)) == trim_end(full.subrange(a as int, b as int)),
        decreases b - a,
    {
        proof {
            let t = full.subrange(a as int, b as int);
            assert(t.drop_last() == full.subrange(a as int, b - 1));
            assert(t.last() == full[b - 1]);
        }
        b -= 1;
    }
    let mut r: Vec<u16> = Vec::new();
    let mut k: usize = a;
    while k < b
        invariant
            a <= k <= b <= full.len(),
            full == s@,
            r@ == full.subrange(a as int, k as int),
        decreases b - k,
    {
        r.push(s[k]);
        k += 1;
        assert(r@ =~= full.subrange(a as int, k as int));
    }
    proof {
        let t = full.subrange(a as int, b as int);
        if t.len() > 0 {
            assert(t.last() == full[b - 1]);
        }
        if a < full.len() {
            assert(!is_white(full[a as int]));
        }
        let u = full.subrange(a as int, full.len() as int);
        if u.len() > 0 {
            assert(u[0] == full[a as int]);
        }
    }
    r
}

/// The name an account shows: the stored one, or else `_` and the login id.
pub fn default_name(stored: Option<Vec<u16>>, login_id: &Vec<u16>) -> (r: Vec<u16>)
    ensures
        r@ == match stored {
            Some(n) => n@,
            None => seq![0x5Fu16] + login_id@,
        },
{
    match stored {
        Some(n) => n,
        None => {
            let mut r: Vec<u16> = vec![0x5F];
            let mut k: usize = 0;
            while k < login_id.len()
                invariant
                    k <= login_id@.len(),
                    r@ == seq![0x5Fu16] + login_id@.subrange(0, k as int),
                decreases login_id@.len() - k,
            {
                r.push(login_id[k]);
                k += 1;
                assert(r@ =~= seq![0x5Fu16] + login_id@.subrange(0, k as int));
            }
            assert(login_id@.subrange(0, login_id@.len() as int) == login_id@);
            r
        },
    }
}

} // verus!
