//! Names for new items in a vault folder: `Untitled`, then `Untitled 1`,
//! `Untitled 2`, ... — the first one that no existing entry takes.

use vstd::prelude::*;
use vstd::utf8::{valid_utf8, decode_utf8, encode_utf8, is_leading_byte_width_1, partial_valid_utf8, partial_valid_utf8_extend_ascii_block, decode_utf8_encode_utf8};
use vstd::string::StringSliceAdditionalSpecFns;
use crate::bytes::push_slice;
use crate::text::{lossy_string, trim_str, trim_spec, TextBuf};

verus! {

/// The decimal digits of `n`, most significant first.
pub open spec fn decimal_bytes(n: nat) -> Seq<u8>
    decreases n,
{
    if n < 10 {
        seq![(48 + n) as u8]
    } else {
        decimal_bytes(n / 10).push((48 + n % 10) as u8)
    }
}

/// `Untitled` in ASCII.
pub open spec fn untitled_word() -> Seq<u8> {
    seq![85u8, 110, 116, 105, 116, 108, 101, 100]
}

/// The `k`-th candidate name, as bytes: `Untitled`, then `Untitled k` for
/// `k > 0`, with `.ext` behind when `ext` is not empty.
pub open spec fn untitled_bytes(k: nat, ext: Seq<u8>) -> Seq<u8> {
    untitled_word() + (if k == 0 {
        Seq::empty()
    } else {
        seq![32u8] + decimal_bytes(k)
    }) + (if ext.len() == 0 {
        Seq::empty()
    } else {
        seq![46u8] + ext
    })
}

/// The first candidate from `k` on that no entry of `taken` equals; past
/// `taken.len()` candidates every one counts as free.
pub open spec fn first_free_from(taken: Seq<Seq<u8>>, ext: Seq<u8>, k: nat) -> nat
    decreases taken.len() + 1 - k,
{
    if k > taken.len() || !taken.contains(untitled_bytes(k, ext)) {
        k
    } else {
        first_free_from(taken, ext, k + 1)
    }
}

/// The names of a listing as UTF-8 bytes.
pub open spec fn names_bytes(names: Seq<String>) -> Seq<Seq<u8>> {
    Seq::new(names.len(), |i: int| encode_utf8(names[i]@))
}

/// The index of the first free candidate name with extension `ext`.
pub open spec fn first_free(names: Seq<String>, ext: Seq<u8>) -> nat {
    first_free_from(names_bytes(names), ext, 0)
}

/// The number that the decimal digits `s` spell.
pub open spec fn digits_value(s: Seq<u8>) -> int
    decreases s.len(),
{
    if s.len() == 0 {
        0
    } else {
        digits_value(s.drop_last()) * 10 + (s.last() - 48)
    }
}

proof fn lemma_decimal_value(n: nat)
    ensures
        digits_value(decimal_bytes(n)) == n,
        decimal_bytes(n).len() > 0,
    decreases n,
{
    if n >= 10 {
        lemma_decimal_value(n / 10);
        let d = decimal_bytes(n);
        assert(d.drop_last() =~= decimal_bytes(n / 10));
        assert(d.last() == (48 + n % 10) as u8);
        assert(((48 + n % 10) as u8) as int == 48 + n % 10);
        assert(digits_value(d) == digits_value(d.drop_last()) * 10 + (d.last() - 48));
        assert(n == (n / 10) * 10 + n % 10);
    } else {
        let d = decimal_bytes(n);
        assert(d.drop_last() =~= Seq::<u8>::empty());
        assert(digits_value(d.drop_last()) == 0);
        assert(d.last() == (48 + n) as u8);
        assert(digits_value(d) == digits_value(d.drop_last()) * 10 + (d.last() - 48));
    }
}

/// Different indices give different candidate names.
proof fn lemma_untitled_injective(j: nat, k: nat, ext: Seq<u8>)
    requires
        j != k,
    ensures
        untitled_bytes(j, ext) != untitled_bytes(k, ext),
{
    lemma_decimal_value(j);
    lemma_decimal_value(k);
    let e: Seq<u8> = if ext.len() == 0 {
        Seq::empty()
    } else {
        seq![46u8] + ext
    };
    let part = |m: nat|
        if m == 0 {
            Seq::<u8>::empty()
        } else {
            seq![32u8] + decimal_bytes(m)
        };
    assert(untitled_bytes(j, ext) == untitled_word() + part(j) + e);
    assert(untitled_bytes(k, ext) == untitled_word() + part(k) + e);
    assert(untitled_bytes(j, ext).len() == 8 + part(j).len() + e.len());
    assert(untitled_bytes(k, ext).len() == 8 + part(k).len() + e.len());
    if j > 0 && k > 0 && untitled_bytes(j, ext) == untitled_bytes(k, ext) {
        let a = untitled_bytes(j, ext);
        assert(decimal_bytes(j).len() == decimal_bytes(k).len());
        assert(decimal_bytes(j) =~= a.subrange(9, 9 + decimal_bytes(j).len() as int));
        assert(decimal_bytes(k) =~= a.subrange(9, 9 + decimal_bytes(k).len() as int));
        assert(digits_value(decimal_bytes(j)) == digits_value(decimal_bytes(k)));
    }
}

proof fn lemma_first_free_from(taken: Seq<Seq<u8>>, ext: Seq<u8>, k: nat)
    ensures
        first_free_from(taken, ext, k) >= k,
        first_free_from(taken, ext, k) > taken.len() || !taken.contains(
            untitled_bytes(first_free_from(taken, ext, k), ext),
        ),
        first_free_from(taken, ext, k) <= k || first_free_from(taken, ext, k) <= taken.len() + 1,
        forall|j: nat|
            k <= j < first_free_from(taken, ext, k) ==> taken.contains(#[trigger] untitled_bytes(j, ext)),
    decreases taken.len() + 1 - k,
{
    if !(k > taken.len() || !taken.contains(untitled_bytes(k, ext))) {
        lemma_first_free_from(taken, ext, k + 1);
    }
}

/// The candidate a new item gets is one that no entry of the folder takes:
/// it is among the first `names.len() + 1`, so one is always free.
pub proof fn lemma_first_free_is_free(names: Seq<String>, ext: Seq<u8>)
    ensures
        first_free(names, ext) <= names.len(),
        !names_bytes(names).contains(untitled_bytes(first_free(names, ext), ext)),
{
    let taken = names_bytes(names);
    lemma_first_free_from(taken, ext, 0);
    let r = first_free_from(taken, ext, 0);
    if r > taken.len() {
        let n = taken.len() + 1;
        let cands = Seq::new(n as nat, |j: int| untitled_bytes(j as nat, ext));
        assert forall|a: int, b: int| 0 <= a < cands.len() && 0 <= b < cands.len() && a != b implies cands[a]
            != cands[b] by {
            lemma_untitled_injective(a as nat, b as nat, ext);
        }
        assert(cands.no_duplicates());
        cands.unique_seq_to_set();
        assert forall|x: Seq<u8>| cands.to_set().contains(x) implies taken.to_set().contains(x) by {
            let j = choose|j: int| 0 <= j < cands.len() && cands[j] == x;
            assert(taken.contains(untitled_bytes(j as nat, ext)));
        }
        vstd::seq_lib::seq_to_set_is_finite(taken);
        vstd::set_lib::lemma_len_subset(cands.to_set(), taken.to_set());
        taken.lemma_cardinality_of_set();
        assert(false);
    }
}

proof fn lemma_ascii_valid(bytes: Seq<u8>)
    requires
        forall|i: int| 0 <= i < bytes.len() ==> #[trigger] bytes[i] < 128,
    ensures
        valid_utf8(bytes),
{
    assert(bytes.subrange(0, 0) =~= Seq::<u8>::empty());
    assert(partial_valid_utf8(bytes, 0));
    assert forall|i: int| 0 <= 0 <= i < bytes.len() <= bytes.len() implies #[trigger] is_leading_byte_width_1(
        bytes[i],
    ) by {
        assert(bytes[i] < 128);
    }
    partial_valid_utf8_extend_ascii_block(bytes, 0, bytes.len() as int);
    assert(bytes.subrange(0, bytes.len() as int) =~= bytes);
}

proof fn lemma_decimal_ascii(n: nat)
    ensures
        forall|i: int| 0 <= i < decimal_bytes(n).len() ==> #[trigger] decimal_bytes(n)[i] < 128,
    decreases n,
{
    if n >= 10 {
        lemma_decimal_ascii(n / 10);
        let d = decimal_bytes(n / 10);
        assert(decimal_bytes(n) == d.push((48 + n % 10) as u8));
        assert forall|i: int| 0 <= i < decimal_bytes(n).len() implies #[trigger] decimal_bytes(n)[i] < 128 by {
            if i < d.len() {
                assert(decimal_bytes(n)[i] == d[i]);
            }
        }
    }
}

/// Appends the decimal digits of `n`.
fn push_decimal(buf: &mut Vec<u8>, n: u32)
    ensures
        final(buf)@ == old(buf)@ + decimal_bytes(n as nat),
    decreases n,
{
    if n < 10 {
        buf.push(48 + n as u8);
    } else {
        push_decimal(buf, n / 10);
        buf.push(48 + (n % 10) as u8);
    }
    assert(final(buf)@ =~= old(buf)@ + decimal_bytes(n as nat));
}

/// The `k`-th candidate name with extension `ext` (see `untitled_bytes`).
pub fn untitled_name(k: u32, ext: &str) -> (r: String)
    ensures
        encode_utf8(r@) == untitled_bytes(k as nat, ext.spec_bytes()),
{
    proof {
        vstd::utf8::encode_utf8_valid_utf8(ext@);
    }
    untitled_name_bytes(k, ext.as_bytes())
}

fn untitled_name_bytes(k: u32, e: &[u8]) -> (r: String)
    requires
        valid_utf8(e@),
    ensures
        encode_utf8(r@) == untitled_bytes(k as nat, e@),
{
    let mut b: Vec<u8> = Vec::new();
    let word: [u8; 8] = [85, 110, 116, 105, 116, 108, 101, 100];
    push_slice(&mut b, &word);
    let ghost head = b@;
    if k > 0 {
        b.push(32);
        push_decimal(&mut b, k);
    }
    let ghost mid = b@;
    if e.len() > 0 {
        b.push(46);
        push_slice(&mut b, e);
    }
    proof {
        lemma_decimal_ascii(k as nat);
        assert(b@ =~= untitled_bytes(k as nat, e@));
        assert forall|i: int| 0 <= i < mid.len() implies #[trigger] mid[i] < 128 by {
            if k > 0 && i >= 9 {
                assert(mid[i] == decimal_bytes(k as nat)[i - 9]);
            }
        }
        lemma_ascii_valid(mid);
        if e@.len() > 0 {
            let dot: Seq<u8> = seq![46u8];
            assert forall|i: int| 0 <= i < dot.len() implies #[trigger] dot[i] < 128 by {}
            lemma_ascii_valid(dot);
            vstd::utf8::valid_utf8_concat(dot, e@);
            vstd::utf8::valid_utf8_concat(mid, dot + e@);
            assert(b@ =~= mid + (dot + e@));
        } else {
            assert(b@ =~= mid);
        }
    }
    let r = lossy_string(b.as_slice());
    proof {
        decode_utf8_encode_utf8(b@);
    }
    r
}

/// Whether some name in `names` has the UTF-8 bytes `b`.
fn name_taken(names: &[String], b: &[u8]) -> (r: bool)
    ensures
        r == names_bytes(names@).contains(b@),
{
    let mut i: usize = 0;
    while i < names.len()
        invariant
            i <= names@.len(),
            forall|j: int| 0 <= j < i ==> names_bytes(names@)[j] != b@,
        decreases names@.len() - i,
    {
        let nb = names[i].as_str().as_bytes();
        if bytes_eq(nb, b) {
            assert(names_bytes(names@)[i as int] == b@);
            return true;
        }
        i = i + 1;
    }
    false
}

fn bytes_eq(a: &[u8], b: &[u8]) -> (r: bool)
    ensures
        r == (a@ == b@),
{
    if a.len() != b.len() {
        return false;
    }
    let mut i: usize = 0;
    while i < a.len()
        invariant
            i <= a@.len(),
            a@.len() == b@.len(),
            forall|j: int| 0 <= j < i ==> a@[j] == b@[j],
        decreases a@.len() - i,
    {
        if a[i] != b[i] {
            return false;
        }
        i = i + 1;
    }
    assert(a@ =~= b@);
    true
}

/// The index of the first candidate name with extension `ext` that no
/// entry of `names` takes.
pub fn first_free_untitled(names: &[String], ext: &[u8]) -> (k: u32)
    requires
        names@.len() < u32::MAX,
        valid_utf8(ext@),
    ensures
        k as nat == first_free(names@, ext@),
{
    let ghost taken = names_bytes(names@);
    let mut k: u32 = 0;
    while (k as usize) <= names.len()
        invariant
            names@.len() < u32::MAX,
            k <= names@.len() + 1,
            taken == names_bytes(names@),
            valid_utf8(ext@),
            first_free_from(taken, ext@, k as nat) == first_free_from(taken, ext@, 0),
        decreases names@.len() + 1 - k,
    {
        let cand = untitled_name_bytes(k, ext);
        if !name_taken(names, cand.as_str().as_bytes()) {
            return k;
        }
        k = k + 1;
    }
    k
}

/// The name for a new vault item: `Untitled`, `Untitled 1`, ... — the first
/// for which no `<name>.json` is among `names`.
pub fn next_untitled(names: &[String]) -> (r: String)
    requires
        names@.len() < u32::MAX,
    ensures
        encode_utf8(r@) == untitled_bytes(first_free(names@, json_ext()), Seq::empty()),
{
    let json: [u8; 4] = [106, 115, 111, 110];
    proof {
        assert forall|i: int| 0 <= i < json@.len() implies #[trigger] json@[i] < 128 by {}
        lemma_ascii_valid(json@);
        assert(json@ =~= json_ext());
    }
    let k = first_free_untitled(names, &json);
    let none: [u8; 0] = [];
    proof {
        assert(none@ =~= Seq::<u8>::empty());
        lemma_ascii_valid(none@);
    }
    untitled_name_bytes(k, &none)
}

/// `json` in ASCII.
pub open spec fn json_ext() -> Seq<u8> {
    seq![106u8, 115, 111, 110]
}

/// The name for a new plain file with extension `ext` (none when empty):
/// the first candidate that no entry of `names` takes.
pub fn next_untitled_plain(names: &[String], ext: &str) -> (r: String)
    requires
        names@.len() < u32::MAX,
    ensures
        encode_utf8(r@) == untitled_bytes(first_free(names@, ext.spec_bytes()), ext.spec_bytes()),
{
    proof {
        vstd::utf8::encode_utf8_valid_utf8(ext@);
    }
    let k = first_free_untitled(names, ext.as_bytes());
    untitled_name(k, ext)
}

/// The characters a file name may not hold.
pub open spec fn forbidden_char(c: char) -> bool {
    c == '/' || c == '\\' || c == ':' || c == '*' || c == '?' || c == '"' || c == '<' || c == '>'
        || c == '|'
}

/// `s` with every forbidden character replaced by `_`.
pub open spec fn sanitized(s: Seq<char>) -> Seq<char> {
    Seq::new(
        s.len(),
        |i: int|
            if forbidden_char(s[i]) {
                '_'
            } else {
                s[i]
            },
    )
}

/// `s` with every forbidden character replaced by `_` (see `sanitized`).
pub fn sanitize(s: &str) -> (r: String)
    ensures
        r@ == sanitized(s@),
{
    broadcast use vstd::string::axiom_spec_iter;
    let mut t = TextBuf::new();
    for c in it: s.chars()
        invariant
            t.wf(),
            it.seq() == s@,
            t@ == sanitized(s@).subrange(0, it.index() as int),
    {
        let ghost k = it.index();
        let d = if c == '/' || c == '\\' || c == ':' || c == '*' || c == '?' || c == '"' || c == '<'
            || c == '>' || c == '|' {
            '_'
        } else {
            c
        };
        t.push_char(d);
        assert(t@ =~= sanitized(s@).subrange(0, k + 1));
    }
    assert(sanitized(s@).subrange(0, s@.len() as int) =~= sanitized(s@));
    t.into_string()
}

/// `Name cannot be empty`.
pub open spec fn empty_name_error() -> Seq<char> {
    "Name cannot be empty"@
}

/// The file name for a new item called `name`: trimmed, with forbidden
/// characters replaced; an error when nothing is left.
pub fn item_name(name: &str) -> (r: Result<String, String>)
    ensures
        sanitized(trim_spec(name@)).len() == 0 ==> (r matches Err(e) && e@ == empty_name_error()),
        sanitized(trim_spec(name@)).len() > 0 ==> (r matches Ok(n) && n@ == sanitized(trim_spec(name@))),
{
    let safe = sanitize(trim_str(name));
    if safe.as_str().is_empty() {
        Err("Name cannot be empty".to_owned())
    } else {
        Ok(safe)
    }
}

/// The new name of a renamed item: trimmed; an error when nothing is left.
pub fn rename_target(new_name: &str) -> (r: Result<&str, String>)
    ensures
        trim_spec(new_name@).len() == 0 ==> (r matches Err(e) && e@ == empty_name_error()),
        trim_spec(new_name@).len() > 0 ==> (r matches Ok(n) && n@ == trim_spec(new_name@)),
{
    let t = trim_str(new_name);
    if t.is_empty() {
        Err("Name cannot be empty".to_owned())
    } else {
        Ok(t)
    }
}

} // verus!
