//! Drag-and-drop code actions as they are stored in a game's data.

use byteorder::{ByteOrder, LittleEndian};
use vstd::prelude::*;
use vstd::slice::slice_subrange;

verus! {

/// The version that code actions are written with.
pub const VERSION: u32 = 440;

/// How many parameters an action has room for.
pub const PARAM_COUNT: usize = 8;

/// Why bytes could not be read as a code action.
#[derive(Clone, Copy, Debug, PartialEq, Eq, Structural)]
pub enum Error {
    /// The bytes end before the action does.
    UnexpectedEof,
    /// The action was written with another version.
    VersionError { expected: u32, got: u32 },
    /// A count is out of range.
    MalformedData,
}

/// One drag-and-drop action of an event or a timeline moment.
pub struct CodeAction {
    /// Unique ID that identifies what type of DnD action this is.
    pub id: u32,
    /// Instance this applies to.
    pub applies_to: i32,
    /// Indicates whether this DnD is a condition, i.e. whether the
    /// following DnD should be dependent on the evaluation of this one.
    pub is_condition: bool,
    /// Whether the "NOT" checkbox is checked.
    pub invert_condition: bool,
    /// Whether the "relative" checkbox is checked.
    pub is_relative: bool,
    /// What action library the action is loaded from.
    pub lib_id: u32,
    /// What type of drag-n-drop action this is.
    pub action_kind: u32,
    /// How this action will be executed: None, Function or Code.
    pub execution_type: u32,
    /// Whether the relative checkbox appears in the IDE.
    pub can_be_relative: u32,
    /// Whether you can change execution target in the IDE.
    pub applies_to_something: bool,
    /// Name of the function if applicable.
    pub fn_name: Vec<u8>,
    /// The code of the action if applicable.
    pub fn_code: Vec<u8>,
    pub param_count: usize,
    pub param_types: [u32; 8],
    pub param_strings: [Vec<u8>; 8],
}

/// A code action as a value.
pub struct CodeActionModel {
    pub id: u32,
    pub applies_to: i32,
    pub is_condition: bool,
    pub invert_condition: bool,
    pub is_relative: bool,
    pub lib_id: u32,
    pub action_kind: u32,
    pub execution_type: u32,
    pub can_be_relative: u32,
    pub applies_to_something: bool,
    pub fn_name: Seq<u8>,
    pub fn_code: Seq<u8>,
    pub param_count: usize,
    pub param_types: Seq<u32>,
    pub param_strings: Seq<Seq<u8>>,
}

impl View for CodeAction {
    type V = CodeActionModel;

    open spec fn view(&self) -> CodeActionModel {
        CodeActionModel {
            id: self.id,
            applies_to: self.applies_to,
            is_condition: self.is_condition,
            invert_condition: self.invert_condition,
            is_relative: self.is_relative,
            lib_id: self.lib_id,
            action_kind: self.action_kind,
            execution_type: self.execution_type,
            can_be_relative: self.can_be_relative,
            applies_to_something: self.applies_to_something,
            fn_name: self.fn_name@,
            fn_code: self.fn_code@,
            param_count: self.param_count,
            param_types: self.param_types@,
            param_strings: self.param_strings@.map_values(|s: Vec<u8>| s@),
        }
    }
}

/// The number that four bytes hold, lowest byte first.
#[verifier::opaque]
pub open spec fn le_u32(b: Seq<u8>) -> u32
    recommends
        b.len() >= 4,
{
    (b[0] + 256 * b[1] + 65536 * b[2] + 16777216 * b[3]) as u32
}

/// The signed number that four bytes hold, lowest byte first, in two's
/// complement.
pub open spec fn le_i32(b: Seq<u8>) -> i32
    recommends
        b.len() >= 4,
{
    if le_u32(b) >= 0x8000_0000 {
        (le_u32(b) - 0x1_0000_0000) as i32
    } else {
        le_u32(b) as i32
    }
}

/// The four bytes that hold `n`, lowest byte first.
#[verifier::opaque]
pub open spec fn le_bytes(n: u32) -> Seq<u8> {
    seq![(n % 256) as u8, (n / 256 % 256) as u8, (n / 65536 % 256) as u8, (n / 16777216) as u8]
}

/// The four bytes that hold the signed number `n`, lowest byte first, in
/// two's complement.
pub open spec fn le_bytes_signed(n: i32) -> Seq<u8> {
    le_bytes(
        if n < 0 {
            (n + 0x1_0000_0000) as u32
        } else {
            n as u32
        },
    )
}

/// A string as it is stored: its length in four bytes, then its bytes.
pub open spec fn pas_bytes(s: Seq<u8>) -> Seq<u8> {
    le_bytes(s.len() as u32) + s
}

/// The number stored at `pos`, if the bytes reach that far.
pub open spec fn u32_at(data: Seq<u8>, pos: int) -> Option<u32> {
    if 0 <= pos && pos + 4 <= data.len() {
        Some(le_u32(data.subrange(pos, pos + 4)))
    } else {
        None
    }
}

/// The signed number stored at `pos`, if the bytes reach that far.
pub open spec fn i32_at(data: Seq<u8>, pos: int) -> Option<i32> {
    if 0 <= pos && pos + 4 <= data.len() {
        Some(le_i32(data.subrange(pos, pos + 4)))
    } else {
        None
    }
}

/// The string stored at `pos` and the place behind it, if the bytes reach
/// that far.
pub open spec fn pas_at(data: Seq<u8>, pos: int) -> Option<(Seq<u8>, int)> {
    match u32_at(data, pos) {
        Some(n) => if pos + 4 + n <= data.len() {
            Some((data.subrange(pos + 4, pos + 4 + n), pos + 4 + n))
        } else {
            None
        },
        None => None,
    }
}

/// The `count` strings stored from `pos` on and the place behind them, if
/// the bytes reach that far.
pub open spec fn strings_at(data: Seq<u8>, pos: int, count: nat) -> Option<(Seq<Seq<u8>>, int)>
    decreases count,
{
    if count == 0 {
        Some((Seq::empty(), pos))
    } else {
        match strings_at(data, pos, (count - 1) as nat) {
            Some((strings, at)) => match pas_at(data, at) {
                Some((s, next)) => Some((strings.push(s), next)),
                None => None,
            },
            None => None,
        }
    }
}

/// The `count` numbers stored from `pos` on.
pub open spec fn numbers_at(data: Seq<u8>, pos: int, count: nat) -> Seq<u32> {
    Seq::new(count, |i: int| le_u32(data.subrange(pos + 4 * i, pos + 4 * i + 4)))
}

/// What `data` holds when read as a code action: the action and the number
/// of bytes it takes, or the first thing that is wrong. A version other
/// than `VERSION` is wrong only when reading strictly.
pub open spec fn decoded(data: Seq<u8>, strict: bool) -> Result<(CodeActionModel, int), Error> {
    if data.len() < 4 {
        Err(Error::UnexpectedEof)
    } else if strict && le_u32(data.subrange(0, 4)) != VERSION {
        Err(Error::VersionError { expected: VERSION, got: le_u32(data.subrange(0, 4)) })
    } else if data.len() < 32 {
        Err(Error::UnexpectedEof)
    } else {
        match pas_at(data, 32) {
            None => Err(Error::UnexpectedEof),
            Some((fn_name, name_end)) => match pas_at(data, name_end) {
                None => Err(Error::UnexpectedEof),
                Some((fn_code, params_at)) => decoded_params(data, params_at, fn_name, fn_code),
            },
        }
    }
}

/// The part of `decoded` behind the two function strings, from `params_at` on.
pub open spec fn decoded_params(data: Seq<u8>, params_at: int, fn_name: Seq<u8>, fn_code: Seq<u8>) -> Result<
    (CodeActionModel, int),
    Error,
> {
    match u32_at(data, params_at) {
        None => Err(Error::UnexpectedEof),
        Some(param_count) => if param_count > PARAM_COUNT {
            Err(Error::MalformedData)
        } else {
            match u32_at(data, params_at + 4) {
                None => Err(Error::UnexpectedEof),
                Some(type_count) => if type_count != PARAM_COUNT {
                    Err(Error::MalformedData)
                } else if data.len() < params_at + 52 {
                    Err(Error::UnexpectedEof)
                } else if le_u32(data.subrange(params_at + 48, params_at + 52)) != PARAM_COUNT {
                    Err(Error::MalformedData)
                } else {
                    match strings_at(data, params_at + 52, PARAM_COUNT as nat) {
                        None => Err(Error::UnexpectedEof),
                        Some((param_strings, strings_end)) => match u32_at(data, strings_end) {
                            None => Err(Error::UnexpectedEof),
                            Some(invert) => Ok(
                                (
                                    CodeActionModel {
                                        lib_id: le_u32(data.subrange(4, 8)),
                                        id: le_u32(data.subrange(8, 12)),
                                        action_kind: le_u32(data.subrange(12, 16)),
                                        can_be_relative: le_u32(data.subrange(16, 20)),
                                        is_condition: le_u32(data.subrange(20, 24)) != 0,
                                        applies_to_something: le_u32(data.subrange(24, 28)) != 0,
                                        execution_type: le_u32(data.subrange(28, 32)),
                                        fn_name,
                                        fn_code,
                                        param_count: param_count as usize,
                                        param_types: numbers_at(data, params_at + 8, PARAM_COUNT as nat),
                                        applies_to: le_i32(data.subrange(params_at + 40, params_at + 44)),
                                        is_relative: le_u32(data.subrange(params_at + 44, params_at + 48)) != 0,
                                        param_strings,
                                        invert_condition: invert != 0,
                                    },
                                    strings_end + 4,
                                ),
                            ),
                        },
                    }
                },
            }
        },
    }
}

/// `ByteOrder::read_u32` of `LittleEndian`, from the crate `byteorder`: the
/// number that the first four bytes of `buf` hold, lowest byte first. Taken
/// on trust.
#[verifier::external_body]
fn read_u32_le(buf: &[u8]) -> (v: u32)
    requires
        buf@.len() >= 4,
    ensures
        v == le_u32(buf@),
{
    LittleEndian::read_u32(buf)
}

/// `ByteOrder::read_i32` of `LittleEndian`, from the crate `byteorder`: the
/// signed number that the first four bytes of `buf` hold, lowest byte first.
/// Taken on trust.
#[verifier::external_body]
fn read_i32_le(buf: &[u8]) -> (v: i32)
    requires
        buf@.len() >= 4,
    ensures
        v == le_i32(buf@),
{
    LittleEndian::read_i32(buf)
}

/// `ByteOrder::write_u32` of `LittleEndian`, from the crate `byteorder`:
/// `buf` then holds `n`, lowest byte first. Taken on trust.
#[verifier::external_body]
fn write_u32_le(buf: &mut [u8; 4], n: u32)
    ensures
        final(buf)@ == le_bytes(n),
{
    LittleEndian::write_u32(buf, n)
}

/// `ByteOrder::write_i32` of `LittleEndian`, from the crate `byteorder`:
/// `buf` then holds `n`, lowest byte first, in two's complement. Taken on
/// trust.
#[verifier::external_body]
fn write_i32_le(buf: &mut [u8; 4], n: i32)
    ensures
        final(buf)@ == le_bytes_signed(n),
{
    LittleEndian::write_i32(buf, n)
}

/// Reads the number stored at `*pos` and moves `*pos` behind it.
fn take_u32(data: &[u8], pos: &mut usize) -> (r: Option<u32>)
    requires
        *old(pos) <= data@.len(),
    ensures
        r == u32_at(data@, *old(pos) as int),
        r is Some ==> *final(pos) == *old(pos) + 4,
        r is None ==> *final(pos) == *old(pos),
        *final(pos) <= data@.len(),
{
    if data.len() - *pos < 4 {
        None
    } else {
        let v = read_u32_le(slice_subrange(data, *pos, *pos + 4));
        *pos = *pos + 4;
        Some(v)
    }
}

/// Reads the signed number stored at `*pos` and moves `*pos` behind it.
fn take_i32(data: &[u8], pos: &mut usize) -> (r: Option<i32>)
    requires
        *old(pos) <= data@.len(),
    ensures
        r == i32_at(data@, *old(pos) as int),
        r is Some ==> *final(pos) == *old(pos) + 4,
        r is None ==> *final(pos) == *old(pos),
        *final(pos) <= data@.len(),
{
    if data.len() - *pos < 4 {
        None
    } else {
        let v = read_i32_le(slice_subrange(data, *pos, *pos + 4));
        *pos = *pos + 4;
        Some(v)
    }
}

/// Reads the string stored at `*pos` and moves `*pos` behind it.
fn take_pas_string(data: &[u8], pos: &mut usize) -> (r: Option<Vec<u8>>)
    requires
        *old(pos) <= data@.len(),
    ensures
        match r {
            Some(s) => pas_at(data@, *old(pos) as int) == Some((s@, *final(pos) as int)),
            None => pas_at(data@, *old(pos) as int) is None,
        },
        *final(pos) <= data@.len(),
{
    let start = *pos;
    let len = match take_u32(data, pos) {
        Some(len) => len as usize,
        None => {
            return None;
        },
    };
    if data.len() - *pos < len {
        *pos = start;
        return None;
    }
    let from = *pos;
    assert(data@.len() <= usize::MAX) by {
        let n = data.len();
    }
    let mut s: Vec<u8> = Vec::with_capacity(len);
    let mut i: usize = 0;
    while i < len
        invariant
            i <= len,
            from + len <= data@.len(),
            data@.len() <= usize::MAX,
            s@ == data@.subrange(from as int, from + i),
        decreases len - i,
    {
        s.push(data[from + i]);
        assert(s@ =~= data@.subrange(from as int, from + i + 1));
        i += 1;
    }
    *pos = from + len;
    Some(s)
}


/// Once a string is missing, all strings behind it are.
pub proof fn lemma_strings_missing(data: Seq<u8>, pos: int, have: nat, want: nat)
    requires
        have <= want,
        strings_at(data, pos, have) is None,
    ensures
        strings_at(data, pos, want) is None,
    decreases want,
{
    if have < want {
        lemma_strings_missing(data, pos, have, (want - 1) as nat);
    }
}

/// Zero or one, as a flag is stored.
pub open spec fn flag(b: bool) -> u32 {
    if b {
        1u32
    } else {
        0u32
    }
}

/// The numbers of `s` as they are stored, four bytes each.
pub open spec fn numbers_bytes(s: Seq<u32>) -> Seq<u8>
    decreases s.len(),
{
    if s.len() == 0 {
        Seq::empty()
    } else {
        numbers_bytes(s.drop_last()) + le_bytes(s.last())
    }
}

/// The strings of `s` as they are stored, one behind the other.
pub open spec fn strings_bytes(s: Seq<Seq<u8>>) -> Seq<u8>
    decreases s.len(),
{
    if s.len() == 0 {
        Seq::empty()
    } else {
        strings_bytes(s.drop_last()) + pas_bytes(s.last())
    }
}

/// The first part of a stored code action: version, kind and the two
/// function strings.
pub open spec fn encoded_head(a: CodeActionModel) -> Seq<u8> {
    le_bytes(VERSION) + le_bytes(a.lib_id) + le_bytes(a.id) + le_bytes(a.action_kind) + le_bytes(
        a.can_be_relative,
    ) + le_bytes(flag(a.is_condition)) + le_bytes(flag(a.applies_to_something)) + le_bytes(
        a.execution_type,
    ) + pas_bytes(a.fn_name) + pas_bytes(a.fn_code)
}

/// The second part of a stored code action: the parameters.
pub open spec fn encoded_tail(a: CodeActionModel) -> Seq<u8> {
    le_bytes(a.param_count as u32) + le_bytes(PARAM_COUNT as u32) + numbers_bytes(a.param_types)
        + le_bytes_signed(a.applies_to) + le_bytes(flag(a.is_relative)) + le_bytes(
        PARAM_COUNT as u32,
    ) + strings_bytes(a.param_strings) + le_bytes(flag(a.invert_condition))
}

/// A code action as it is stored.
pub open spec fn encoded(a: CodeActionModel) -> Seq<u8> {
    encoded_head(a) + encoded_tail(a)
}

impl CodeActionModel {
    /// Whether every length and count of the action fits the four bytes
    /// that it is stored in.
    pub open spec fn storable(self) -> bool {
        &&& self.fn_name.len() <= u32::MAX
        &&& self.fn_code.len() <= u32::MAX
        &&& self.param_count <= u32::MAX
        &&& forall|i: int|
            0 <= i < self.param_strings.len() ==> (#[trigger] self.param_strings[i]).len() <= u32::MAX
    }
}

/// Four bytes written hold the number that was written.
#[verifier::rlimit(50)]
pub proof fn lemma_le_round_trip(n: u32, m: i32)
    ensures
        le_bytes(n).len() == 4,
        le_bytes_signed(m).len() == 4,
        le_u32(le_bytes(n)) == n,
        le_i32(le_bytes_signed(m)) == m,
{
    reveal(le_u32);
    reveal(le_bytes);
}

/// A number stored behind `pre` is read back from there.
pub proof fn lemma_read_u32(full: Seq<u8>, pre: Seq<u8>, n: u32)
    requires
        (pre + le_bytes(n)).is_prefix_of(full),
    ensures
        le_bytes(n).len() == 4,
        u32_at(full, pre.len() as int) == Some(n),
        le_u32(full.subrange(pre.len() as int, (pre.len() + 4) as int)) == n,
{
    let part = pre + le_bytes(n);
    lemma_le_round_trip(n, 0);
    assert(full.subrange(pre.len() as int, (pre.len() + 4) as int) =~= le_bytes(n)) by {
        assert forall|i: int| 0 <= i < 4 implies full[pre.len() + i] == le_bytes(n)[i] by {
            assert(part[pre.len() + i] == le_bytes(n)[i]);
        }
    }
    lemma_le_round_trip(n, 0);
}

/// A signed number stored behind `pre` is read back from there.
pub proof fn lemma_read_i32(full: Seq<u8>, pre: Seq<u8>, n: i32)
    requires
        (pre + le_bytes_signed(n)).is_prefix_of(full),
    ensures
        le_bytes_signed(n).len() == 4,
        le_i32(full.subrange(pre.len() as int, (pre.len() + 4) as int)) == n,
{
    let part = pre + le_bytes_signed(n);
    lemma_le_round_trip(0, n);
    assert(full.subrange(pre.len() as int, (pre.len() + 4) as int) =~= le_bytes_signed(n)) by {
        assert forall|i: int| 0 <= i < 4 implies full[pre.len() + i] == le_bytes_signed(n)[i] by {
            assert(part[pre.len() + i] == le_bytes_signed(n)[i]);
        }
    }
    lemma_le_round_trip(0, n);
}

/// A string stored behind `pre` is read back from there.
pub proof fn lemma_read_pas(full: Seq<u8>, pre: Seq<u8>, s: Seq<u8>)
    requires
        s.len() <= u32::MAX,
        (pre + pas_bytes(s)).is_prefix_of(full),
    ensures
        pas_bytes(s).len() == 4 + s.len(),
        pas_at(full, pre.len() as int) == Some((s, (pre.len() + 4 + s.len()) as int)),
{
    let part = pre + pas_bytes(s);
    let head = pre + le_bytes(s.len() as u32);
    lemma_le_round_trip(s.len() as u32, 0);
    assert(head.is_prefix_of(full)) by {
        assert forall|i: int| 0 <= i < head.len() implies head[i] == full[i] by {
            assert(part[i] == head[i]);
        }
    }
    lemma_read_u32(full, pre, s.len() as u32);
    assert(full.subrange((pre.len() + 4) as int, (pre.len() + 4 + s.len()) as int) =~= s) by {
        assert forall|i: int| 0 <= i < s.len() implies full[pre.len() + 4 + i] == s[i] by {
            assert(part[pre.len() + 4 + i] == s[i]);
        }
    }
}

/// Numbers are stored in four bytes each.
pub proof fn lemma_numbers_len(ns: Seq<u32>)
    ensures
        numbers_bytes(ns).len() == 4 * ns.len(),
    decreases ns.len(),
{
    if ns.len() > 0 {
        lemma_numbers_len(ns.drop_last());
        lemma_le_round_trip(ns.last(), 0);
    }
}

/// Numbers stored behind `pre` are read back from there.
pub proof fn lemma_read_numbers(full: Seq<u8>, pre: Seq<u8>, ns: Seq<u32>)
    requires
        (pre + numbers_bytes(ns)).is_prefix_of(full),
    ensures
        numbers_at(full, pre.len() as int, ns.len()) == ns,
    decreases ns.len(),
{
    if ns.len() > 0 {
        let init = ns.drop_last();
        let part = pre + numbers_bytes(ns);
        let before = pre + numbers_bytes(init);
        lemma_numbers_len(init);
        assert(before.is_prefix_of(full)) by {
            assert forall|i: int| 0 <= i < before.len() implies before[i] == full[i] by {
                assert(part[i] == before[i]);
            }
        }
        lemma_read_numbers(full, pre, init);
        assert((before + le_bytes(ns.last())) =~= part);
        lemma_read_u32(full, before, ns.last());
        assert forall|i: int| 0 <= i < ns.len() implies numbers_at(
            full,
            pre.len() as int,
            ns.len(),
        )[i] == ns[i] by {
            if i < init.len() {
                assert(numbers_at(full, pre.len() as int, init.len())[i] == init[i]);
            }
        }
    }
    assert(numbers_at(full, pre.len() as int, ns.len()) =~= ns);
}

/// Strings stored behind `pre` are read back from there.
pub proof fn lemma_read_strings(full: Seq<u8>, pre: Seq<u8>, ss: Seq<Seq<u8>>)
    requires
        forall|i: int| 0 <= i < ss.len() ==> (#[trigger] ss[i]).len() <= u32::MAX,
        (pre + strings_bytes(ss)).is_prefix_of(full),
    ensures
        strings_at(full, pre.len() as int, ss.len()) == Some(
            (ss, (pre.len() + strings_bytes(ss).len()) as int),
        ),
    decreases ss.len(),
{
    if ss.len() > 0 {
        let init = ss.drop_last();
        let part = pre + strings_bytes(ss);
        let before = pre + strings_bytes(init);
        assert(before.is_prefix_of(full)) by {
            assert forall|i: int| 0 <= i < before.len() implies before[i] == full[i] by {
                assert(part[i] == before[i]);
            }
        }
        lemma_read_strings(full, pre, init);
        assert((before + pas_bytes(ss.last())) =~= part);
        lemma_read_pas(full, before, ss.last());
        assert(init.push(ss.last()) =~= ss);
    } else {
        assert(ss =~= Seq::<Seq<u8>>::empty());
    }
}

/// A beginning of a beginning is a beginning.
proof fn lemma_prefix_of_prefix(a: Seq<u8>, b: Seq<u8>, full: Seq<u8>)
    requires
        (a + b).is_prefix_of(full),
    ensures
        a.is_prefix_of(full),
{
    assert forall|i: int| 0 <= i < a.len() implies a[i] == full[i] by {
        assert((a + b)[i] == a[i]);
    }
}

/// What reading finds in the first part of a stored action.
proof fn lemma_read_head(full: Seq<u8>, a: CodeActionModel)
    requires
        a.storable(),
        encoded_head(a).is_prefix_of(full),
    ensures
        full.len() >= 32,
        le_u32(full.subrange(0, 4)) == VERSION,
        le_u32(full.subrange(4, 8)) == a.lib_id,
        le_u32(full.subrange(8, 12)) == a.id,
        le_u32(full.subrange(12, 16)) == a.action_kind,
        le_u32(full.subrange(16, 20)) == a.can_be_relative,
        le_u32(full.subrange(20, 24)) == flag(a.is_condition),
        le_u32(full.subrange(24, 28)) == flag(a.applies_to_something),
        le_u32(full.subrange(28, 32)) == a.execution_type,
        pas_at(full, 32) == Some((a.fn_name, 36 + a.fn_name.len() as int)),
        pas_at(full, 36 + a.fn_name.len() as int) == Some(
            (a.fn_code, encoded_head(a).len() as int),
        ),
        encoded_head(a).len() == 40 + a.fn_name.len() + a.fn_code.len(),
{
    let e0 = le_bytes(VERSION);
    let e1 = e0 + le_bytes(a.lib_id);
    let e2 = e1 + le_bytes(a.id);
    let e3 = e2 + le_bytes(a.action_kind);
    let e4 = e3 + le_bytes(a.can_be_relative);
    let e5 = e4 + le_bytes(flag(a.is_condition));
    let e6 = e5 + le_bytes(flag(a.applies_to_something));
    let e7 = e6 + le_bytes(a.execution_type);
    let e8 = e7 + pas_bytes(a.fn_name);
    let e9 = e8 + pas_bytes(a.fn_code);
    assert(e9 == encoded_head(a));
    lemma_prefix_of_prefix(e8, pas_bytes(a.fn_code), full);
    lemma_prefix_of_prefix(e7, pas_bytes(a.fn_name), full);
    lemma_prefix_of_prefix(e6, le_bytes(a.execution_type), full);
    lemma_prefix_of_prefix(e5, le_bytes(flag(a.applies_to_something)), full);
    lemma_prefix_of_prefix(e4, le_bytes(flag(a.is_condition)), full);
    lemma_prefix_of_prefix(e3, le_bytes(a.can_be_relative), full);
    lemma_prefix_of_prefix(e2, le_bytes(a.action_kind), full);
    lemma_prefix_of_prefix(e1, le_bytes(a.id), full);
    lemma_prefix_of_prefix(e0, le_bytes(a.lib_id), full);
    assert((Seq::<u8>::empty() + le_bytes(VERSION)) =~= e0);
    lemma_read_u32(full, Seq::empty(), VERSION);
    lemma_read_u32(full, e0, a.lib_id);
    lemma_read_u32(full, e1, a.id);
    lemma_read_u32(full, e2, a.action_kind);
    lemma_read_u32(full, e3, a.can_be_relative);
    lemma_read_u32(full, e4, flag(a.is_condition));
    lemma_read_u32(full, e5, flag(a.applies_to_something));
    lemma_read_u32(full, e6, a.execution_type);
    assert(e7.len() == 32);
    lemma_read_pas(full, e7, a.fn_name);
    lemma_read_pas(full, e8, a.fn_code);
}

/// What reading finds in the second part of a stored action, which stands
/// behind `pre`.
proof fn lemma_read_tail(full: Seq<u8>, pre: Seq<u8>, a: CodeActionModel)
    requires
        a.storable(),
        a.param_types.len() == PARAM_COUNT,
        a.param_strings.len() == PARAM_COUNT,
        (pre + encoded_tail(a)).is_prefix_of(full),
    ensures
        ({
            let p = pre.len() as int;
            let end = p + encoded_tail(a).len();
            &&& u32_at(full, p) == Some(a.param_count as u32)
            &&& u32_at(full, p + 4) == Some(PARAM_COUNT as u32)
            &&& numbers_at(full, p + 8, PARAM_COUNT as nat) == a.param_types
            &&& le_i32(full.subrange(p + 40, p + 44)) == a.applies_to
            &&& le_u32(full.subrange(p + 44, p + 48)) == flag(a.is_relative)
            &&& full.len() >= p + 52
            &&& le_u32(full.subrange(p + 48, p + 52)) == PARAM_COUNT
            &&& strings_at(full, p + 52, PARAM_COUNT as nat) == Some((a.param_strings, end - 4))
            &&& u32_at(full, end - 4) == Some(flag(a.invert_condition))
        }),
{
    let t0 = pre + le_bytes(a.param_count as u32);
    let t1 = t0 + le_bytes(PARAM_COUNT as u32);
    let t2 = t1 + numbers_bytes(a.param_types);
    let t3 = t2 + le_bytes_signed(a.applies_to);
    let t4 = t3 + le_bytes(flag(a.is_relative));
    let t5 = t4 + le_bytes(PARAM_COUNT as u32);
    let t6 = t5 + strings_bytes(a.param_strings);
    let t7 = t6 + le_bytes(flag(a.invert_condition));
    lemma_numbers_len(a.param_types);
    assert(t7 =~= pre + encoded_tail(a));
    lemma_prefix_of_prefix(t6, le_bytes(flag(a.invert_condition)), full);
    lemma_prefix_of_prefix(t5, strings_bytes(a.param_strings), full);
    lemma_prefix_of_prefix(t4, le_bytes(PARAM_COUNT as u32), full);
    lemma_prefix_of_prefix(t3, le_bytes(flag(a.is_relative)), full);
    lemma_prefix_of_prefix(t2, le_bytes_signed(a.applies_to), full);
    lemma_prefix_of_prefix(t1, numbers_bytes(a.param_types), full);
    lemma_prefix_of_prefix(t0, le_bytes(PARAM_COUNT as u32), full);
    lemma_read_u32(full, pre, a.param_count as u32);
    lemma_read_u32(full, t0, PARAM_COUNT as u32);
    lemma_read_numbers(full, t1, a.param_types);
    lemma_read_i32(full, t2, a.applies_to);
    lemma_read_u32(full, t3, flag(a.is_relative));
    lemma_read_u32(full, t4, PARAM_COUNT as u32);
    lemma_read_strings(full, t5, a.param_strings);
    lemma_read_u32(full, t6, flag(a.invert_condition));
}

/// Round trip: an action that was stored is read back as it was, whatever
/// follows it, strictly or not.
#[verifier::rlimit(50)]
pub proof fn law_code_action_round_trip(a: CodeActionModel, rest: Seq<u8>, strict: bool)
    requires
        a.storable(),
        a.param_count <= PARAM_COUNT,
        a.param_types.len() == PARAM_COUNT,
        a.param_strings.len() == PARAM_COUNT,
    ensures
        decoded(encoded(a) + rest, strict) == Ok::<(CodeActionModel, int), Error>(
            (a, encoded(a).len() as int),
        ),
{
    let full = encoded(a) + rest;
    assert(encoded(a).is_prefix_of(full));
    lemma_prefix_of_prefix(encoded_head(a), encoded_tail(a), full);
    lemma_read_head(full, a);
    lemma_read_tail(full, encoded_head(a), a);
    let params_at = encoded_head(a).len() as int;
    let got = decoded_params(full, params_at, a.fn_name, a.fn_code);
    assert(got is Ok);
    assert(got->Ok_0.1 == encoded(a).len());
    let m = got->Ok_0.0;
    assert(m.param_types == a.param_types);
    assert(m.param_strings == a.param_strings);
    assert(m == a);
}

fn put_u32(out: &mut Vec<u8>, n: u32)
    ensures
        final(out)@ == old(out)@ + le_bytes(n),
{
    let mut buf: [u8; 4] = [0, 0, 0, 0];
    write_u32_le(&mut buf, n);
    proof {
        lemma_le_round_trip(n, 0);
    }
    out.push(buf[0]);
    out.push(buf[1]);
    out.push(buf[2]);
    out.push(buf[3]);
    assert(out@ =~= old(out)@ + le_bytes(n));
}

fn put_i32(out: &mut Vec<u8>, n: i32)
    ensures
        final(out)@ == old(out)@ + le_bytes_signed(n),
{
    let mut buf: [u8; 4] = [0, 0, 0, 0];
    write_i32_le(&mut buf, n);
    proof {
        lemma_le_round_trip(0, n);
    }
    out.push(buf[0]);
    out.push(buf[1]);
    out.push(buf[2]);
    out.push(buf[3]);
    assert(out@ =~= old(out)@ + le_bytes_signed(n));
}

fn put_pas_string(out: &mut Vec<u8>, s: &Vec<u8>)
    requires
        s@.len() <= u32::MAX,
    ensures
        final(out)@ == old(out)@ + pas_bytes(s@),
{
    put_u32(out, s.len() as u32);
    let ghost head = out@;
    let mut i: usize = 0;
    while i < s.len()
        invariant
            i <= s@.len(),
            out@ == head + s@.subrange(0, i as int),
        decreases s@.len() - i,
    {
        out.push(s[i]);
        assert(out@ =~= head + s@.subrange(0, i + 1));
        i += 1;
    }
    assert(s@.subrange(0, s@.len() as int) =~= s@);
    assert(out@ =~= old(out)@ + pas_bytes(s@));
}

fn put_flag(out: &mut Vec<u8>, b: bool)
    ensures
        final(out)@ == old(out)@ + le_bytes(flag(b)),
{
    put_u32(
        out,
        if b {
            1
        } else {
            0
        },
    );
}

impl CodeAction {
    /// Reads a code action from the beginning of `data`. Gives the action
    /// and the number of bytes that it takes.
    #[verifier::loop_isolation(false)]
    pub fn deserialize_exe(data: &[u8], strict: bool) -> (r: Result<(CodeAction, usize), Error>)
        ensures
            match r {
                Ok((action, taken)) => decoded(data@, strict) == Ok::<(CodeActionModel, int), Error>(
                    (action@, taken as int),
                ),
                Err(e) => decoded(data@, strict) == Err::<(CodeActionModel, int), Error>(e),
            },
    {
        let mut pos: usize = 0;
        let version = match take_u32(data, &mut pos) {
            Some(v) => v,
            None => {
                return Err(Error::UnexpectedEof);
            },
        };
        if strict && version != VERSION {
            return Err(Error::VersionError { expected: VERSION, got: version });
        }
        let lib_id = match take_u32(data, &mut pos) {
            Some(v) => v,
            None => {
                return Err(Error::UnexpectedEof);
            },
        };
        let id = match take_u32(data, &mut pos) {
            Some(v) => v,
            None => {
                return Err(Error::UnexpectedEof);
            },
        };
        let action_kind = match take_u32(data, &mut pos) {
            Some(v) => v,
            None => {
                return Err(Error::UnexpectedEof);
            },
        };
        let can_be_relative = match take_u32(data, &mut pos) {
            Some(v) => v,
            None => {
                return Err(Error::UnexpectedEof);
            },
        };
        let is_condition = match take_u32(data, &mut pos) {
            Some(v) => v != 0,
            None => {
                return Err(Error::UnexpectedEof);
            },
        };
        let applies_to_something = match take_u32(data, &mut pos) {
            Some(v) => v != 0,
            None => {
                return Err(Error::UnexpectedEof);
            },
        };
        let execution_type = match take_u32(data, &mut pos) {
            Some(v) => v,
            None => {
                return Err(Error::UnexpectedEof);
            },
        };
        assert(pos == 32);
        let fn_name = match take_pas_string(data, &mut pos) {
            Some(s) => s,
            None => {
                return Err(Error::UnexpectedEof);
            },
        };
        let fn_code = match take_pas_string(data, &mut pos) {
            Some(s) => s,
            None => {
                return Err(Error::UnexpectedEof);
            },
        };
        let ghost params_at = pos as int;
        let param_count = match take_u32(data, &mut pos) {
            Some(v) => v as usize,
            None => {
                return Err(Error::UnexpectedEof);
            },
        };
        if param_count > PARAM_COUNT {
            return Err(Error::MalformedData);
        }
        let type_count = match take_u32(data, &mut pos) {
            Some(v) => v as usize,
            None => {
                return Err(Error::UnexpectedEof);
            },
        };
        if type_count != PARAM_COUNT {
            return Err(Error::MalformedData);
        }
        let mut param_types: [u32; 8] = [0, 0, 0, 0, 0, 0, 0, 0];
        let mut t: usize = 0;
        while t < PARAM_COUNT
            invariant
                t <= PARAM_COUNT,
                pos == params_at + 8 + 4 * t,
                pos <= data@.len(),
                forall|i: int|
                    0 <= i < t ==> (#[trigger] param_types@[i]) == le_u32(
                        data@.subrange(params_at + 8 + 4 * i, params_at + 8 + 4 * i + 4),
                    ),
            decreases PARAM_COUNT - t,
        {
            match take_u32(data, &mut pos) {
                Some(v) => {
                    param_types[t] = v;
                },
                None => {
                    return Err(Error::UnexpectedEof);
                },
            }
            t += 1;
        }
        let applies_to = match take_i32(data, &mut pos) {
            Some(v) => v,
            None => {
                return Err(Error::UnexpectedEof);
            },
        };
        let is_relative = match take_u32(data, &mut pos) {
            Some(v) => v != 0,
            None => {
                return Err(Error::UnexpectedEof);
            },
        };
        let arg_count = match take_u32(data, &mut pos) {
            Some(v) => v as usize,
            None => {
                return Err(Error::UnexpectedEof);
            },
        };
        if arg_count != PARAM_COUNT {
            return Err(Error::MalformedData);
        }
        let ghost strings_from = pos as int;
        let mut strings: Vec<Vec<u8>> = Vec::new();
        let mut k: usize = 0;
        while k < PARAM_COUNT
            invariant
                k <= PARAM_COUNT,
                pos <= data@.len(),
                strings@.len() == k,
                strings_at(data@, strings_from, k as nat) == Some(
                    (strings@.map_values(|s: Vec<u8>| s@), pos as int),
                ),
            decreases PARAM_COUNT - k,
        {
            let ghost before = strings@.map_values(|s: Vec<u8>| s@);
            match take_pas_string(data, &mut pos) {
                Some(s) => {
                    strings.push(s);
                    assert(strings@.map_values(|s: Vec<u8>| s@) =~= before.push(s@));
                },
                None => {
                    proof {
                        assert(strings_at(data@, strings_from, (k + 1) as nat) is None);
                        lemma_strings_missing(data@, strings_from, (k + 1) as nat, PARAM_COUNT as nat);
                    }
                    return Err(Error::UnexpectedEof);
                },
            }
            k += 1;
        }
        let ghost all = strings@.map_values(|s: Vec<u8>| s@);
        let invert_condition = match take_u32(data, &mut pos) {
            Some(v) => v != 0,
            None => {
                return Err(Error::UnexpectedEof);
            },
        };
        let string7 = strings.pop().unwrap();
        let string6 = strings.pop().unwrap();
        let string5 = strings.pop().unwrap();
        let string4 = strings.pop().unwrap();
        let string3 = strings.pop().unwrap();
        let string2 = strings.pop().unwrap();
        let string1 = strings.pop().unwrap();
        let string0 = strings.pop().unwrap();
        let param_strings: [Vec<u8>; 8] = [string0, string1, string2, string3, string4, string5, string6, string7];
        let action = CodeAction {
            id,
            applies_to,
            is_condition,
            invert_condition,
            is_relative,
            lib_id,
            action_kind,
            execution_type,
            can_be_relative,
            applies_to_something,
            fn_name,
            fn_code,
            param_count,
            param_types,
            param_strings,
        };
        proof {
            assert(action@.param_strings =~= all);
            assert(action@.param_types =~= numbers_at(data@, params_at + 8, PARAM_COUNT as nat));
        }
        Ok((action, pos))
    }

    /// The first part of the action as it is stored.
    fn head_bytes(&self) -> (out: Vec<u8>)
        requires
            self@.storable(),
        ensures
            out@ == encoded_head(self@),
    {
        let mut out: Vec<u8> = Vec::new();
        put_u32(&mut out, VERSION);
        assert(out@ =~= le_bytes(VERSION));
        put_u32(&mut out, self.lib_id);
        put_u32(&mut out, self.id);
        put_u32(&mut out, self.action_kind);
        put_u32(&mut out, self.can_be_relative);
        put_flag(&mut out, self.is_condition);
        put_flag(&mut out, self.applies_to_something);
        put_u32(&mut out, self.execution_type);
        put_pas_string(&mut out, &self.fn_name);
        put_pas_string(&mut out, &self.fn_code);
        out
    }

    /// The parameter types as they are stored.
    fn types_bytes(&self) -> (out: Vec<u8>)
        ensures
            out@ == numbers_bytes(self@.param_types),
    {
        let mut out: Vec<u8> = Vec::new();
        let mut t: usize = 0;
        while t < PARAM_COUNT
            invariant
                t <= PARAM_COUNT,
                out@ == numbers_bytes(self.param_types@.subrange(0, t as int)),
            decreases PARAM_COUNT - t,
        {
            put_u32(&mut out, self.param_types[t]);
            proof {
                let now = self.param_types@.subrange(0, t + 1);
                assert(now.drop_last() =~= self.param_types@.subrange(0, t as int));
            }
            t += 1;
        }
        assert(self.param_types@.subrange(0, PARAM_COUNT as int) =~= self.param_types@);
        out
    }

    /// The parameter strings as they are stored.
    fn strings_bytes(&self) -> (out: Vec<u8>)
        requires
            self@.storable(),
        ensures
            out@ == strings_bytes(self@.param_strings),
    {
        let mut out: Vec<u8> = Vec::new();
        let ghost strings = self@.param_strings;
        let mut k: usize = 0;
        while k < PARAM_COUNT
            invariant
                k <= PARAM_COUNT,
                strings == self@.param_strings,
                self@.storable(),
                out@ == strings_bytes(strings.subrange(0, k as int)),
            decreases PARAM_COUNT - k,
        {
            assert(strings[k as int] == self.param_strings@[k as int]@);
            put_pas_string(&mut out, &self.param_strings[k]);
            proof {
                let now = strings.subrange(0, k + 1);
                assert(now.drop_last() =~= strings.subrange(0, k as int));
            }
            k += 1;
        }
        assert(strings.subrange(0, PARAM_COUNT as int) =~= strings);
        out
    }

    /// The second part of the action as it is stored.
    fn tail_bytes(&self) -> (out: Vec<u8>)
        requires
            self@.storable(),
        ensures
            out@ == encoded_tail(self@),
    {
        let mut out: Vec<u8> = Vec::new();
        put_u32(&mut out, self.param_count as u32);
        assert(out@ =~= le_bytes(self.param_count as u32));
        put_u32(&mut out, PARAM_COUNT as u32);
        let mut types = self.types_bytes();
        out.append(&mut types);
        put_i32(&mut out, self.applies_to);
        put_flag(&mut out, self.is_relative);
        put_u32(&mut out, PARAM_COUNT as u32);
        let mut strings = self.strings_bytes();
        out.append(&mut strings);
        put_flag(&mut out, self.invert_condition);
        out
    }

    /// The code action as it is stored.
    pub fn serialize_exe(&self) -> (out: Vec<u8>)
        requires
            self@.storable(),
        ensures
            out@ == encoded(self@),
    {
        let mut out = self.head_bytes();
        let mut tail = self.tail_bytes();
        out.append(&mut tail);
        out
    }
}

} // verus!
