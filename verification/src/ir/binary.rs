//! Binary forms that can be read back: numbers, texts, optional values, lists, and what
//! is made of them.
use crate::ir::encoding;
use vstd::prelude::*;
use vstd::slice::slice_subrange;

verus! {

/// What was read and the bytes behind it, or nothing where the bytes do not begin with
/// the form of a value.
pub type Read<X> = Option<(X, Seq<u8>)>;

/// A type with a binary form that can be read back.
pub trait Binary: Sized {
    type Model;

    spec fn model(self) -> Self::Model;

    /// The binary form of a value.
    spec fn bytes(m: Self::Model) -> Seq<u8>;

    /// The form can hold the value: lengths fit in 64 bits, and arrays and addresses
    /// have as many parts as they should.
    spec fn fits(m: Self::Model) -> bool;

    /// The value whose form the bytes begin with.
    spec fn read(s: Seq<u8>) -> Read<Self::Model>;

    /// What was written is read back, whatever follows it.
    proof fn reads_back(m: Self::Model, rest: Seq<u8>)
        requires
            Self::fits(m),
        ensures
            Self::read(Self::bytes(m) + rest) == Some((m, rest)),
    ;

    /// What was read had been written like that.
    proof fn was_written(s: Seq<u8>)
        requires
            Self::read(s) is Some,
        ensures
            s == Self::bytes(Self::read(s)->Some_0.0) + Self::read(s)->Some_0.1,
            Self::fits(Self::read(s)->Some_0.0),
    ;

    /// Reads a value off the front of some bytes.
    fn take<'a>(s: &'a [u8]) -> (r: Option<(Self, &'a [u8])>)
        ensures
            (match r {
                Some((v, rest)) => Self::read(s@) == Some((v.model(), rest@)),
                None => Self::read(s@) is None,
            }),
    ;
}

/// A type whose binary form is that of another one: of a number for an enumeration, of
/// nested pairs for a structure.
pub trait Shaped: Sized {
    type Value;

    type Shape: Binary;

    spec fn value(self) -> Self::Value;

    /// The binary form of a value.
    spec fn written(m: Self::Value) -> Seq<u8>;

    /// The value of the other type that has the same form.
    spec fn shape(m: Self::Value) -> <Self::Shape as Binary>::Model;

    /// The value with a shape, if there is one.
    spec fn of(x: <Self::Shape as Binary>::Model) -> Option<Self::Value>;

    /// The forms are the same, and the value can be told from its shape.
    proof fn shape_is_exact(m: Self::Value)
        ensures
            Self::written(m) == <Self::Shape as Binary>::bytes(Self::shape(m)),
            Self::of(Self::shape(m)) == Some(m),
    ;

    /// A value that is told from a shape has that shape.
    proof fn shape_is_met(x: <Self::Shape as Binary>::Model)
        requires
            <Self::Shape as Binary>::fits(x),
        ensures
            Self::of(x) matches Some(m) ==> Self::shape(m) == x,
    ;

    /// Makes the value with a shape.
    fn make(x: Self::Shape) -> (r: Option<Self>)
        ensures
            (match r {
                Some(v) => Self::of(x.model()) == Some(v.value()),
                None => Self::of(x.model()) is None,
            }),
    ;
}

impl<T: Shaped> Binary for T {
    type Model = T::Value;

    open spec fn model(self) -> T::Value {
        self.value()
    }

    open spec fn bytes(m: T::Value) -> Seq<u8> {
        T::written(m)
    }

    open spec fn fits(m: T::Value) -> bool {
        <T::Shape as Binary>::fits(T::shape(m))
    }

    closed spec fn read(s: Seq<u8>) -> Read<T::Value> {
        match <T::Shape as Binary>::read(s) {
            Some((x, rest)) => match T::of(x) {
                Some(m) => Some((m, rest)),
                None => None,
            },
            None => None,
        }
    }

    proof fn reads_back(m: T::Value, rest: Seq<u8>) {
        T::shape_is_exact(m);
        <T::Shape as Binary>::reads_back(T::shape(m), rest);
    }

    proof fn was_written(s: Seq<u8>) {
        <T::Shape as Binary>::was_written(s);
        let (x, rest) = <T::Shape as Binary>::read(s)->Some_0;
        T::shape_is_met(x);
        T::shape_is_exact(T::of(x)->0);
    }

    fn take<'a>(s: &'a [u8]) -> (r: Option<(T, &'a [u8])>) {
        match <T::Shape as Binary>::take(s) {
            Some((x, rest)) => match T::make(x) {
                Some(v) => Some((v, rest)),
                None => None,
            },
            None => None,
        }
    }
}

// ---------------------------------------------------------------------------
// Numbers
// ---------------------------------------------------------------------------

/// The number of bytes, least significant first.
pub open spec fn le_value(s: Seq<u8>) -> nat
    decreases s.len(),
{
    if s.len() == 0 {
        0
    } else {
        s[0] as nat + 256 * le_value(s.drop_first())
    }
}

/// The number of bytes, most significant first.
pub open spec fn be_value(s: Seq<u8>) -> nat
    decreases s.len(),
{
    if s.len() == 0 {
        0
    } else {
        be_value(s.drop_last()) * 256 + s.last() as nat
    }
}

/// How many numbers `n` bytes can hold.
pub open spec fn power(n: nat) -> nat
    decreases n,
{
    if n == 0 {
        1
    } else {
        256 * power((n - 1) as nat)
    }
}

pub proof fn lemma_powers()
    ensures
        power(2) == 0x1_0000,
        power(4) == 0x1_0000_0000,
        power(8) == 0x1_0000_0000_0000_0000,
        power(16) == 0x1_0000_0000_0000_0000_0000_0000_0000_0000,
{
    reveal_with_fuel(power, 17);
}

pub proof fn lemma_power_grows(n: nat, m: nat)
    requires
        n <= m,
    ensures
        power(n) <= power(m),
    decreases m,
{
    if n < m {
        lemma_power_grows(n, (m - 1) as nat);
    }
}

proof fn lemma_le(v: nat, n: nat)
    requires
        v < power(n),
    ensures
        encoding::le_bytes(v, n).len() == n,
        le_value(encoding::le_bytes(v, n)) == v,
    decreases n,
{
    if n > 0 {
        lemma_le(v / 256, (n - 1) as nat);
        assert(encoding::le_bytes(v, n).drop_first() =~= encoding::le_bytes(
            v / 256,
            (n - 1) as nat,
        ));
    }
}

proof fn lemma_le_back(s: Seq<u8>)
    ensures
        le_value(s) < power(s.len()),
        encoding::le_bytes(le_value(s), s.len()) == s,
    decreases s.len(),
{
    if s.len() > 0 {
        lemma_le_back(s.drop_first());
        let tail = le_value(s.drop_first());
        assert((s[0] as nat + 256 * tail) / 256 == tail);
        assert((s[0] as nat + 256 * tail) % 256 == s[0] as nat);
        assert(encoding::le_bytes(le_value(s), s.len()) =~= s);
    }
}

pub proof fn lemma_be(v: nat, n: nat)
    requires
        v < power(n),
    ensures
        encoding::be_bytes(v, n).len() == n,
        be_value(encoding::be_bytes(v, n)) == v,
    decreases n,
{
    if n > 0 {
        lemma_be(v / 256, (n - 1) as nat);
        assert(encoding::be_bytes(v, n).drop_last() =~= encoding::be_bytes(
            v / 256,
            (n - 1) as nat,
        ));
    }
}

pub proof fn lemma_be_back(s: Seq<u8>)
    ensures
        be_value(s) < power(s.len()),
        encoding::be_bytes(be_value(s), s.len()) == s,
    decreases s.len(),
{
    if s.len() > 0 {
        lemma_be_back(s.drop_last());
        let head = be_value(s.drop_last());
        assert((head * 256 + s.last() as nat) / 256 == head);
        assert((head * 256 + s.last() as nat) % 256 == s.last() as nat);
        assert(encoding::be_bytes(be_value(s), s.len()) =~= s);
    }
}

/// The first `n` bytes.
pub open spec fn read_raw(s: Seq<u8>, n: nat) -> Read<Seq<u8>> {
    if s.len() >= n {
        Some((s.take(n as int), s.skip(n as int)))
    } else {
        None
    }
}

pub proof fn lemma_raw(bytes: Seq<u8>, rest: Seq<u8>)
    ensures
        read_raw(bytes + rest, bytes.len()) == Some((bytes, rest)),
{
    assert((bytes + rest).take(bytes.len() as int) =~= bytes);
    assert((bytes + rest).skip(bytes.len() as int) =~= rest);
}

pub proof fn lemma_raw_back(s: Seq<u8>, n: nat)
    requires
        read_raw(s, n) is Some,
    ensures
        s == read_raw(s, n)->Some_0.0 + read_raw(s, n)->Some_0.1,
        read_raw(s, n)->Some_0.0.len() == n,
{
    assert(s =~= s.take(n as int) + s.skip(n as int));
}

/// `bincode::deserialize` of a `u16`: the number of the first two bytes, least
/// significant first, whatever follows them; it fails where there are fewer.
#[verifier::external_body]
fn bincode_u16(s: &[u8]) -> (r: Option<u16>)
    ensures
        r is Some <==> s@.len() >= 2,
        r matches Some(v) ==> v == le_value(s@.take(2)),
{
    bincode::deserialize(s).ok()
}

impl Binary for u16 {
    type Model = u16;

    open spec fn model(self) -> u16 {
        self
    }

    open spec fn bytes(m: u16) -> Seq<u8> {
        encoding::le_bytes(m as nat, 2)
    }

    open spec fn fits(m: u16) -> bool {
        true
    }

    open spec fn read(s: Seq<u8>) -> Read<u16> {
        if s.len() >= 2 {
            Some((le_value(s.take(2)) as u16, s.skip(2)))
        } else {
            None
        }
    }

    proof fn reads_back(m: u16, rest: Seq<u8>) {
        lemma_powers();
        lemma_le(m as nat, 2);
        assert((Self::bytes(m) + rest).take(2) =~= Self::bytes(m));
        assert((Self::bytes(m) + rest).skip(2) =~= rest);
    }

    proof fn was_written(s: Seq<u8>) {
        lemma_powers();
        lemma_le_back(s.take(2));
        assert(s =~= s.take(2) + s.skip(2));
    }

    fn take<'a>(s: &'a [u8]) -> (r: Option<(u16, &'a [u8])>) {
        match bincode_u16(s) {
            Some(v) => Some((v, slice_subrange(s, 2, s.len()))),
            None => None,
        }
    }
}

/// `bincode::deserialize` of a `u32`: the number of the first four bytes, least
/// significant first, whatever follows them; it fails where there are fewer.
#[verifier::external_body]
fn bincode_u32(s: &[u8]) -> (r: Option<u32>)
    ensures
        r is Some <==> s@.len() >= 4,
        r matches Some(v) ==> v == le_value(s@.take(4)),
{
    bincode::deserialize(s).ok()
}

impl Binary for u32 {
    type Model = u32;

    open spec fn model(self) -> u32 {
        self
    }

    open spec fn bytes(m: u32) -> Seq<u8> {
        encoding::le_bytes(m as nat, 4)
    }

    open spec fn fits(m: u32) -> bool {
        true
    }

    open spec fn read(s: Seq<u8>) -> Read<u32> {
        if s.len() >= 4 {
            Some((le_value(s.take(4)) as u32, s.skip(4)))
        } else {
            None
        }
    }

    proof fn reads_back(m: u32, rest: Seq<u8>) {
        lemma_powers();
        lemma_le(m as nat, 4);
        assert((Self::bytes(m) + rest).take(4) =~= Self::bytes(m));
        assert((Self::bytes(m) + rest).skip(4) =~= rest);
    }

    proof fn was_written(s: Seq<u8>) {
        lemma_powers();
        lemma_le_back(s.take(4));
        assert(s =~= s.take(4) + s.skip(4));
    }

    fn take<'a>(s: &'a [u8]) -> (r: Option<(u32, &'a [u8])>) {
        match bincode_u32(s) {
            Some(v) => Some((v, slice_subrange(s, 4, s.len()))),
            None => None,
        }
    }
}

/// `bincode::deserialize` of a `u64`: the number of the first eight bytes, least
/// significant first, whatever follows them; it fails where there are fewer.
#[verifier::external_body]
fn bincode_u64(s: &[u8]) -> (r: Option<u64>)
    ensures
        r is Some <==> s@.len() >= 8,
        r matches Some(v) ==> v == le_value(s@.take(8)),
{
    bincode::deserialize(s).ok()
}

impl Binary for u64 {
    type Model = u64;

    open spec fn model(self) -> u64 {
        self
    }

    open spec fn bytes(m: u64) -> Seq<u8> {
        encoding::le_bytes(m as nat, 8)
    }

    open spec fn fits(m: u64) -> bool {
        true
    }

    open spec fn read(s: Seq<u8>) -> Read<u64> {
        if s.len() >= 8 {
            Some((le_value(s.take(8)) as u64, s.skip(8)))
        } else {
            None
        }
    }

    proof fn reads_back(m: u64, rest: Seq<u8>) {
        lemma_powers();
        lemma_le(m as nat, 8);
        assert((Self::bytes(m) + rest).take(8) =~= Self::bytes(m));
        assert((Self::bytes(m) + rest).skip(8) =~= rest);
    }

    proof fn was_written(s: Seq<u8>) {
        lemma_powers();
        lemma_le_back(s.take(8));
        assert(s =~= s.take(8) + s.skip(8));
    }

    fn take<'a>(s: &'a [u8]) -> (r: Option<(u64, &'a [u8])>) {
        match bincode_u64(s) {
            Some(v) => Some((v, slice_subrange(s, 8, s.len()))),
            None => None,
        }
    }
}

// ---------------------------------------------------------------------------
// Texts, flags and raw bytes
// ---------------------------------------------------------------------------

/// `bincode::deserialize` of a `String`: a length of eight bytes, then as many bytes,
/// which are UTF-8; it fails on anything else, and passes over what follows.
#[verifier::external_body]
fn bincode_string(s: &[u8]) -> (r: Option<String>)
    ensures
        r is Some <==> String::read(s@) is Some,
        r matches Some(t) ==> t@ == String::read(s@)->Some_0.0,
{
    bincode::deserialize(s).ok()
}

impl Binary for String {
    type Model = Seq<char>;

    open spec fn model(self) -> Seq<char> {
        self@
    }

    open spec fn bytes(m: Seq<char>) -> Seq<u8> {
        encoding::text_bytes(m)
    }

    open spec fn fits(m: Seq<char>) -> bool {
        vstd::utf8::encode_utf8(m).len() <= u64::MAX
    }

    open spec fn read(s: Seq<u8>) -> Read<Seq<char>> {
        match u64::read(s) {
            Some((n, rest)) => if n <= rest.len() && vstd::utf8::valid_utf8(rest.take(n as int)) {
                Some((vstd::utf8::decode_utf8(rest.take(n as int)), rest.skip(n as int)))
            } else {
                None
            },
            None => None,
        }
    }

    proof fn reads_back(m: Seq<char>, rest: Seq<u8>) {
        let bytes = vstd::utf8::encode_utf8(m);
        let n = bytes.len() as u64;
        assert(Self::bytes(m) + rest =~= u64::bytes(n) + (bytes + rest));
        u64::reads_back(n, bytes + rest);
        assert((bytes + rest).take(n as int) =~= bytes);
        assert((bytes + rest).skip(n as int) =~= rest);
        vstd::utf8::encode_utf8_valid_utf8(m);
        vstd::utf8::encode_utf8_decode_utf8(m);
    }

    proof fn was_written(s: Seq<u8>) {
        u64::was_written(s);
        let (n, rest) = u64::read(s)->Some_0;
        let bytes = rest.take(n as int);
        vstd::utf8::decode_utf8_encode_utf8(bytes);
        assert(rest =~= bytes + rest.skip(n as int));
        assert(s =~= Self::bytes(Self::read(s)->Some_0.0) + Self::read(s)->Some_0.1);
    }

    fn take<'a>(s: &'a [u8]) -> (r: Option<(String, &'a [u8])>) {
        match (bincode_string(s), u64::take(s)) {
            (Some(t), Some((n, rest))) => Some((t, slice_subrange(rest, n as usize, rest.len()))),
            _ => None,
        }
    }
}

impl Binary for bool {
    type Model = bool;

    open spec fn model(self) -> bool {
        self
    }

    open spec fn bytes(m: bool) -> Seq<u8> {
        encoding::flag(m)
    }

    open spec fn fits(m: bool) -> bool {
        true
    }

    open spec fn read(s: Seq<u8>) -> Read<bool> {
        if s.len() > 0 && s[0] <= 1 {
            Some((s[0] == 1, s.skip(1)))
        } else {
            None
        }
    }

    proof fn reads_back(m: bool, rest: Seq<u8>) {
        assert((Self::bytes(m) + rest).skip(1) =~= rest);
    }

    proof fn was_written(s: Seq<u8>) {
        assert(s =~= Self::bytes(Self::read(s)->Some_0.0) + Self::read(s)->Some_0.1);
    }

    fn take<'a>(s: &'a [u8]) -> (r: Option<(bool, &'a [u8])>) {
        if s.len() > 0 && s[0] <= 1 {
            Some((s[0] == 1, slice_subrange(s, 1, s.len())))
        } else {
            None
        }
    }
}

impl<const N: usize> Binary for [u8; N] {
    type Model = Seq<u8>;

    open spec fn model(self) -> Seq<u8> {
        self@
    }

    open spec fn bytes(m: Seq<u8>) -> Seq<u8> {
        m
    }

    open spec fn fits(m: Seq<u8>) -> bool {
        m.len() == N
    }

    open spec fn read(s: Seq<u8>) -> Read<Seq<u8>> {
        read_raw(s, N as nat)
    }

    proof fn reads_back(m: Seq<u8>, rest: Seq<u8>) {
        lemma_raw(m, rest);
    }

    proof fn was_written(s: Seq<u8>) {
        lemma_raw_back(s, N as nat);
    }

    fn take<'a>(s: &'a [u8]) -> (r: Option<([u8; N], &'a [u8])>) {
        if s.len() < N {
            return None;
        }
        let mut v: [u8; N] = [0;N];
        let mut i: usize = 0;
        while i < N
            invariant
                i <= N <= s@.len(),
                forall|k: int| 0 <= k < i ==> v@[k] == s@[k],
            decreases N - i,
        {
            v[i] = s[i];
            i += 1;
        }
        assert(v@ =~= s@.take(N as int));
        Some((v, slice_subrange(s, N, s.len())))
    }
}

// ---------------------------------------------------------------------------
// Pairs, optional values and lists
// ---------------------------------------------------------------------------

impl<A: Binary, B: Binary> Binary for (A, B) {
    type Model = (A::Model, B::Model);

    open spec fn model(self) -> (A::Model, B::Model) {
        (self.0.model(), self.1.model())
    }

    open spec fn bytes(m: (A::Model, B::Model)) -> Seq<u8> {
        A::bytes(m.0) + B::bytes(m.1)
    }

    open spec fn fits(m: (A::Model, B::Model)) -> bool {
        A::fits(m.0) && B::fits(m.1)
    }

    open spec fn read(s: Seq<u8>) -> Read<(A::Model, B::Model)> {
        match A::read(s) {
            Some((a, rest)) => match B::read(rest) {
                Some((b, rest)) => Some(((a, b), rest)),
                None => None,
            },
            None => None,
        }
    }

    proof fn reads_back(m: (A::Model, B::Model), rest: Seq<u8>) {
        assert(Self::bytes(m) + rest =~= A::bytes(m.0) + (B::bytes(m.1) + rest));
        A::reads_back(m.0, B::bytes(m.1) + rest);
        B::reads_back(m.1, rest);
    }

    proof fn was_written(s: Seq<u8>) {
        A::was_written(s);
        B::was_written(A::read(s)->Some_0.1);
        assert(s =~= Self::bytes(Self::read(s)->Some_0.0) + Self::read(s)->Some_0.1);
    }

    fn take<'a>(s: &'a [u8]) -> (r: Option<((A, B), &'a [u8])>) {
        match A::take(s) {
            Some((a, rest)) => match B::take(rest) {
                Some((b, rest)) => Some(((a, b), rest)),
                None => None,
            },
            None => None,
        }
    }
}

pub open spec fn optional_model<T: Binary>(v: Option<T>) -> Option<T::Model> {
    match v {
        Some(x) => Some(x.model()),
        None => None,
    }
}

impl<T: Binary> Binary for Option<T> {
    type Model = Option<T::Model>;

    open spec fn model(self) -> Option<T::Model> {
        optional_model(self)
    }

    open spec fn bytes(m: Option<T::Model>) -> Seq<u8> {
        match m {
            None => seq![0u8],
            Some(x) => seq![1u8] + T::bytes(x),
        }
    }

    open spec fn fits(m: Option<T::Model>) -> bool {
        m matches Some(x) ==> T::fits(x)
    }

    open spec fn read(s: Seq<u8>) -> Read<Option<T::Model>> {
        match bool::read(s) {
            None => None,
            Some((false, rest)) => Some((None, rest)),
            Some((true, rest)) => match T::read(rest) {
                Some((x, rest)) => Some((Some(x), rest)),
                None => None,
            },
        }
    }

    proof fn reads_back(m: Option<T::Model>, rest: Seq<u8>) {
        match m {
            None => bool::reads_back(false, rest),
            Some(x) => {
                assert(Self::bytes(m) + rest =~= bool::bytes(true) + (T::bytes(x) + rest));
                bool::reads_back(true, T::bytes(x) + rest);
                T::reads_back(x, rest);
            },
        }
    }

    proof fn was_written(s: Seq<u8>) {
        bool::was_written(s);
        let (given, rest) = bool::read(s)->Some_0;
        if given {
            T::was_written(rest);
        }
        assert(s =~= Self::bytes(Self::read(s)->Some_0.0) + Self::read(s)->Some_0.1);
    }

    fn take<'a>(s: &'a [u8]) -> (r: Option<(Option<T>, &'a [u8])>) {
        match bool::take(s) {
            None => None,
            Some((false, rest)) => Some((None, rest)),
            Some((true, rest)) => match T::take(rest) {
                Some((x, rest)) => Some((Some(x), rest)),
                None => None,
            },
        }
    }
}

pub open spec fn models<T: Binary>(v: Seq<T>) -> Seq<T::Model> {
    v.map_values(|x: T| x.model())
}

/// The items of a list, one after the other.
pub open spec fn item_bytes<T: Binary>(m: Seq<T::Model>) -> Seq<u8>
    decreases m.len(),
{
    if m.len() == 0 {
        Seq::empty()
    } else {
        item_bytes::<T>(m.drop_last()) + T::bytes(m.last())
    }
}

/// The first `n` items of a list.
pub open spec fn read_items<T: Binary>(s: Seq<u8>, n: nat) -> Read<Seq<T::Model>>
    decreases n,
{
    if n == 0 {
        Some((Seq::empty(), s))
    } else {
        match read_items::<T>(s, (n - 1) as nat) {
            Some((before, rest)) => match T::read(rest) {
                Some((x, rest)) => Some((before.push(x), rest)),
                None => None,
            },
            None => None,
        }
    }
}

proof fn lemma_items<T: Binary>(m: Seq<T::Model>, rest: Seq<u8>)
    requires
        forall|i: int| 0 <= i < m.len() ==> T::fits(#[trigger] m[i]),
    ensures
        read_items::<T>(item_bytes::<T>(m) + rest, m.len()) == Some((m, rest)),
    decreases m.len(),
{
    if m.len() == 0 {
        assert(item_bytes::<T>(m) + rest =~= rest);
        assert(m =~= Seq::empty());
    } else {
        let (head, last) = (m.drop_last(), T::bytes(m.last()));
        assert(item_bytes::<T>(m) + rest =~= item_bytes::<T>(head) + (last + rest));
        assert forall|i: int| 0 <= i < head.len() implies T::fits(#[trigger] head[i]) by {
            assert(head[i] == m[i]);
        }
        lemma_items::<T>(head, last + rest);
        T::reads_back(m.last(), rest);
        assert(m =~= head.push(m.last()));
    }
}

proof fn lemma_items_back<T: Binary>(s: Seq<u8>, n: nat)
    requires
        read_items::<T>(s, n) is Some,
    ensures
        ({
            let (m, rest) = read_items::<T>(s, n)->Some_0;
            &&& s == item_bytes::<T>(m) + rest
            &&& m.len() == n
            &&& forall|i: int| 0 <= i < n ==> T::fits(#[trigger] m[i])
        }),
    decreases n,
{
    let (m, rest) = read_items::<T>(s, n)->Some_0;
    if n > 0 {
        lemma_items_back::<T>(s, (n - 1) as nat);
        let (head, middle) = read_items::<T>(s, (n - 1) as nat)->Some_0;
        T::was_written(middle);
        assert(m.drop_last() =~= head);
        assert forall|i: int| 0 <= i < n implies T::fits(#[trigger] m[i]) by {
            if i < n - 1 {
                assert(m[i] == head[i]);
            }
        }
    }
    assert(s =~= item_bytes::<T>(m) + rest);
}

/// Where some of the items cannot be read, all of them cannot.
proof fn lemma_no_items<T: Binary>(s: Seq<u8>, n: nat, all: nat)
    requires
        n <= all,
        read_items::<T>(s, n) is None,
    ensures
        read_items::<T>(s, all) is None,
    decreases all,
{
    if n < all {
        lemma_no_items::<T>(s, n, (all - 1) as nat);
    }
}

impl<T: Binary> Binary for Vec<T> {
    type Model = Seq<T::Model>;

    open spec fn model(self) -> Seq<T::Model> {
        models(self@)
    }

    open spec fn bytes(m: Seq<T::Model>) -> Seq<u8> {
        encoding::le_bytes(m.len(), 8) + item_bytes::<T>(m)
    }

    open spec fn fits(m: Seq<T::Model>) -> bool {
        m.len() <= u64::MAX && forall|i: int| 0 <= i < m.len() ==> T::fits(#[trigger] m[i])
    }

    open spec fn read(s: Seq<u8>) -> Read<Seq<T::Model>> {
        match u64::read(s) {
            Some((n, rest)) => read_items::<T>(rest, n as nat),
            None => None,
        }
    }

    proof fn reads_back(m: Seq<T::Model>, rest: Seq<u8>) {
        let (n, items) = (m.len() as u64, item_bytes::<T>(m));
        assert(Self::bytes(m) + rest =~= u64::bytes(n) + (items + rest));
        u64::reads_back(n, items + rest);
        lemma_items::<T>(m, rest);
    }

    proof fn was_written(s: Seq<u8>) {
        u64::was_written(s);
        let (n, rest) = u64::read(s)->Some_0;
        lemma_items_back::<T>(rest, n as nat);
        assert(s =~= Self::bytes(Self::read(s)->Some_0.0) + Self::read(s)->Some_0.1);
    }

    fn take<'a>(s: &'a [u8]) -> (r: Option<(Vec<T>, &'a [u8])>) {
        let (n, start) = match u64::take(s) {
            Some(read) => read,
            None => return None,
        };
        let mut found: Vec<T> = Vec::new();
        let mut left = start;
        let mut i: u64 = 0;
        assert(models(found@) =~= Seq::empty());
        while i < n
            invariant
                i <= n,
                u64::read(s@) == Some((n, start@)),
                read_items::<T>(start@, i as nat) == Some((models(found@), left@)),
            decreases n - i,
        {
            let ghost before = found@;
            match T::take(left) {
                Some((x, next)) => {
                    found.push(x);
                    assert(models(found@) =~= models(before).push(x.model()));
                    left = next;
                },
                None => {
                    proof {
                        lemma_no_items::<T>(start@, (i + 1) as nat, n as nat);
                    }
                    return None;
                },
            }
            i += 1;
        }
        Some((found, left))
    }
}

/// A number and a value are read back.
pub proof fn lemma_tagged<T: Binary>(n: u32, m: T::Model, rest: Seq<u8>)
    requires
        T::fits(m),
    ensures
        u32::read(encoding::variant(n as nat) + T::bytes(m) + rest) == Some(
            (n, T::bytes(m) + rest),
        ),
        T::read(T::bytes(m) + rest) == Some((m, rest)),
{
    assert(encoding::variant(n as nat) + T::bytes(m) + rest =~= u32::bytes(n) + (T::bytes(m)
        + rest));
    u32::reads_back(n, T::bytes(m) + rest);
    T::reads_back(m, rest);
}

/// A number and a value that were read had been written like that.
pub proof fn lemma_tagged_back<T: Binary>(
    s: Seq<u8>,
    n: u32,
    middle: Seq<u8>,
    m: T::Model,
    rest: Seq<u8>,
)
    requires
        u32::read(s) == Some((n, middle)),
        T::read(middle) == Some((m, rest)),
    ensures
        s == encoding::variant(n as nat) + T::bytes(m) + rest,
        T::fits(m),
{
    u32::was_written(s);
    T::was_written(middle);
    assert(s =~= encoding::variant(n as nat) + T::bytes(m) + rest);
}

// ---------------------------------------------------------------------------
// Whole values
// ---------------------------------------------------------------------------

/// The bytes begin with the form of a value.
pub open spec fn begins_with<T: Binary>(bytes: Seq<u8>, m: T::Model) -> bool {
    T::fits(m) && T::bytes(m).is_prefix_of(bytes)
}

/// Bytes begin with the form of one value at most, so that a value is read back as it
/// was written and as nothing else.
pub proof fn law_bytes_are_of_one_value<T: Binary>(m: T::Model, other: T::Model, bytes: Seq<u8>)
    requires
        begins_with::<T>(bytes, m),
        begins_with::<T>(bytes, other),
    ensures
        m == other,
{
    let (a, b) = (T::bytes(m), T::bytes(other));
    T::reads_back(m, bytes.skip(a.len() as int));
    T::reads_back(other, bytes.skip(b.len() as int));
    assert(bytes =~= a + bytes.skip(a.len() as int));
    assert(bytes =~= b + bytes.skip(b.len() as int));
}

/// Reads the value whose form some bytes begin with.
pub fn decode<T: Binary>(bytes: &[u8]) -> (r: Option<T>)
    ensures
        (match r {
            Some(v) => begins_with::<T>(bytes@, v.model()),
            None => forall|m: T::Model| !begins_with::<T>(bytes@, m),
        }),
{
    match T::take(bytes) {
        Some((v, rest)) => {
            proof {
                T::was_written(bytes@);
                let form = T::bytes(v.model());
                assert((form + rest@).subrange(0, form.len() as int) =~= form);
            }
            Some(v)
        },
        None => {
            assert forall|m: T::Model| !begins_with::<T>(bytes@, m) by {
                if begins_with::<T>(bytes@, m) {
                    let form = T::bytes(m);
                    T::reads_back(m, bytes@.skip(form.len() as int));
                    assert(bytes@ =~= form + bytes@.skip(form.len() as int));
                }
            }
            None
        },
    }
}

} // verus!
