//! Composite join keys: the normalized fields of a row at its key columns.

use vstd::prelude::*;
use crate::columns::ColumnSpec;
use crate::model::{fold_byte, norm_field, row_key, sel_fits, KeyV};

verus! {

/// The modulus of the key hash, the largest prime below 2^32.
pub const HASH_MODULUS: u64 = 4294967291;

/// The multiplier of the key hash.
pub const HASH_FACTOR: u64 = 16777619;

/// The value that marks the end of a key part in the hash, so that the
/// parts `ab`, `c` and `a`, `bc` hash differently.
pub const HASH_PART_END: u64 = 256;

/// One step of the hash: the state `h` after absorbing the value `x`.
pub open spec fn hash_step(h: int, x: int) -> int {
    (h * (HASH_FACTOR as int) + x + 1) % (HASH_MODULUS as int)
}

/// The hash state after absorbing the bytes of one part.
pub open spec fn hash_bytes(h: int, bytes: Seq<u8>) -> int
    decreases bytes.len(),
{
    if bytes.len() == 0 {
        h
    } else {
        hash_step(hash_bytes(h, bytes.drop_last()), bytes.last() as int)
    }
}

/// The hash of a key: its parts absorbed in order, each closed by an end mark.
pub open spec fn key_hash(k: KeyV) -> int
    decreases k.len(),
{
    if k.len() == 0 {
        0
    } else {
        hash_step(hash_bytes(key_hash(k.drop_last()), k.last()), HASH_PART_END as int)
    }
}

/// A composite key in normalized form.
pub struct JoinKey {
    parts: Vec<Vec<u8>>,
}

impl View for JoinKey {
    type V = KeyV;

    closed spec fn view(&self) -> KeyV {
        Seq::new(self.parts@.len(), |c: int| self.parts@[c]@)
    }
}

fn step(h: u64, x: u64) -> (r: u64)
    requires
        h < HASH_MODULUS,
        x <= 256,
    ensures
        r == hash_step(h as int, x as int),
        r < HASH_MODULUS,
{
    assert(h * HASH_FACTOR <= 4294967291 * 16777619) by (nonlinear_arith)
        requires
            h < 4294967291,
            HASH_FACTOR == 16777619,
    ;
    (h * HASH_FACTOR + x + 1) % HASH_MODULUS
}

/// The normalized bytes of a field.
pub fn normalize(field: &String, fold: bool) -> (bytes: Vec<u8>)
    ensures
        bytes@ == norm_field(field@, fold),
{
    let raw = field.as_str().as_bytes();
    let mut bytes: Vec<u8> = Vec::new();
    let mut i: usize = 0;
    while i < raw.len()
        invariant
            0 <= i <= raw.len(),
            raw@ == vstd::utf8::encode_utf8(field@),
            bytes@.len() == i,
            forall|j: int|
                0 <= j < i ==> bytes@[j] == (if fold {
                    fold_byte(raw@[j])
                } else {
                    raw@[j]
                }),
        decreases raw.len() - i,
    {
        let b = raw[i];
        if fold && 0x41 <= b && b <= 0x5A {
            bytes.push(b + 0x20);
        } else {
            bytes.push(b);
        }
        i = i + 1;
    }
    assert(bytes@ =~= norm_field(field@, fold));
    bytes
}

fn same_bytes(a: &Vec<u8>, b: &Vec<u8>) -> (r: bool)
    ensures
        r == (a@ == b@),
{
    if a.len() != b.len() {
        return false;
    }
    let mut i: usize = 0;
    while i < a.len()
        invariant
            0 <= i <= a.len(),
            a.len() == b.len(),
            forall|j: int| 0 <= j < i ==> a@[j] == b@[j],
        decreases a.len() - i,
    {
        if a[i] != b[i] {
            return false;
        }
        i = i + 1;
    }
    assert(a@ =~= b@);
    true
}

impl JoinKey {
    /// The key of `row` under the selection `sel`.
    pub fn of_row(row: &Vec<String>, sel: &ColumnSpec, fold: bool) -> (key: JoinKey)
        requires
            sel_fits(sel@, row.len() as int),
        ensures
            key@ == row_key(row.deep_view(), sel@, fold),
    {
        let mut parts: Vec<Vec<u8>> = Vec::new();
        let mut c: usize = 0;
        while c < sel.len()
            invariant
                0 <= c <= sel@.len(),
                sel_fits(sel@, row.len() as int),
                parts@.len() == c,
                forall|d: int|
                    0 <= d < c ==> (#[trigger] parts@[d])@ == norm_field(row@[sel@[d]]@, fold),
            decreases sel@.len() - c,
        {
            let col = sel.column(c);
            let part = normalize(&row[col], fold);
            parts.push(part);
            c = c + 1;
        }
        let key = JoinKey { parts };
        assert(key@ =~= row_key(row.deep_view(), sel@, fold));
        key
    }

    /// Whether two keys are equal.
    pub fn same(&self, other: &JoinKey) -> (r: bool)
        ensures
            r == (self@ == other@),
    {
        if self.parts.len() != other.parts.len() {
            return false;
        }
        let mut c: usize = 0;
        while c < self.parts.len()
            invariant
                0 <= c <= self.parts.len(),
                self.parts.len() == other.parts.len(),
                forall|d: int| 0 <= d < c ==> self@[d] == other@[d],
            decreases self.parts.len() - c,
        {
            if !same_bytes(&self.parts[c], &other.parts[c]) {
                assert(self@[c as int] == self.parts@[c as int]@);
                assert(other@[c as int] == other.parts@[c as int]@);
                return false;
            }
            c = c + 1;
        }
        assert(self@ =~= other@);
        true
    }

    /// The hash of the key, below [`HASH_MODULUS`].
    pub fn hash(&self) -> (h: u64)
        ensures
            h == key_hash(self@),
            h < HASH_MODULUS,
    {
        let mut h: u64 = 0;
        let mut c: usize = 0;
        while c < self.parts.len()
            invariant
                0 <= c <= self.parts.len(),
                h < HASH_MODULUS,
                h == key_hash(self@.take(c as int)),
            decreases self.parts.len() - c,
        {
            let part = &self.parts[c];
            let mut i: usize = 0;
            let ghost start = h;
            while i < part.len()
                invariant
                    0 <= i <= part.len(),
                    h < HASH_MODULUS,
                    h == hash_bytes(start as int, part@.take(i as int)),
                decreases part.len() - i,
            {
                proof {
                    assert(part@.take(i + 1).drop_last() =~= part@.take(i as int));
                }
                h = step(h, part[i] as u64);
                i = i + 1;
            }
            proof {
                assert(part@.take(part.len() as int) =~= part@);
                assert(self@.take(c + 1).drop_last() =~= self@.take(c as int));
                assert(self@.take(c + 1).last() == part@);
            }
            h = step(h, HASH_PART_END);
            c = c + 1;
        }
        proof {
            assert(self@.take(self.parts.len() as int) =~= self@);
        }
        h
    }
}

} // verus!
