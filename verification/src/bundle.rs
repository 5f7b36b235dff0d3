//! Length-prefixed bundles: several fields carried as one blob.
//!
//! Every number on the wire is a big-endian 32-bit field, and every run of
//! bytes is preceded by its length as such a field. A bundle is read strictly
//! front to back. Reading fails as soon as a field would run past the end of
//! the blob, and a bundle is accepted only if its last field ends where the
//! blob ends.

use crate::be32::{be32_bytes, be32_value, lemma_be32_value_of_bytes, push_be32, read_be32};
use crate::error::LheError;
use vstd::prelude::*;
use vstd::slice::{slice_subrange, slice_to_vec};

verus! {

/// The byte runs that a list of buffers holds.
pub open spec fn runs(items: Seq<Vec<u8>>) -> Seq<Seq<u8>> {
    Seq::new(items.len(), |i: int| items[i]@)
}

/// A copy of a list of buffers.
pub fn copy_runs(items: &Vec<Vec<u8>>) -> (copy: Vec<Vec<u8>>)
    ensures
        runs(copy@) == runs(items@),
{
    let mut copy: Vec<Vec<u8>> = Vec::new();
    let mut i: usize = 0;
    while i < items.len()
        invariant
            i <= items@.len(),
            copy@.len() == i,
            runs(copy@) == runs(items@).take(i as int),
        decreases items@.len() - i,
    {
        let ghost before = runs(copy@);
        copy.push(slice_to_vec(items[i].as_slice()));
        assert(runs(copy@) =~= runs(items@).take(i + 1)) by {
            assert forall|j: int| 0 <= j < i + 1 implies runs(copy@)[j] == runs(items@)[j] by {
                if j < i {
                    assert(runs(copy@)[j] == before[j]);
                    assert(before[j] == runs(items@).take(i as int)[j]);
                }
            }
        }
        i += 1;
    }
    assert(runs(items@).take(items@.len() as int) =~= runs(items@));
    copy
}

/// Whether a length can be written as a 32-bit field.
pub open spec fn fits_field(len: nat) -> bool {
    len <= u32::MAX
}

/// Whether a list can be written: its count and each length fit a field.
pub open spec fn all_fit(items: Seq<Seq<u8>>) -> bool {
    &&& fits_field(items.len())
    &&& forall|i: int| 0 <= i < items.len() ==> fits_field(#[trigger] items[i].len())
}

/// One run of bytes on the wire: its length, then the bytes.
pub open spec fn field_bytes(value: Seq<u8>) -> Seq<u8> {
    be32_bytes(value.len() as int) + value
}

/// A list of runs on the wire, one after the other.
pub open spec fn fields_bytes(items: Seq<Seq<u8>>) -> Seq<u8>
    decreases items.len(),
{
    if items.len() == 0 {
        Seq::empty()
    } else {
        field_bytes(items[0]) + fields_bytes(items.drop_first())
    }
}

/// The run of bytes that starts at `at`, and the position after it. `None`
/// where the length field or the run would pass the end of `data`.
pub open spec fn parse_field(data: Seq<u8>, at: int) -> Option<(Seq<u8>, int)> {
    if 0 <= at && at + 4 <= data.len() && at + 4 + be32_value(data, at) <= data.len() {
        Some(
            (
                data.subrange(at + 4, at + 4 + be32_value(data, at)),
                at + 4 + be32_value(data, at),
            ),
        )
    } else {
        None
    }
}

/// The `count` runs that start at `at`, and the position after the last.
pub open spec fn parse_fields(data: Seq<u8>, at: int, count: nat) -> Option<(Seq<Seq<u8>>, int)>
    decreases count,
{
    if count == 0 {
        Some((Seq::empty(), at))
    } else {
        match parse_field(data, at) {
            None => None,
            Some((value, next)) => match parse_fields(data, next, (count - 1) as nat) {
                None => None,
                Some((rest, end)) => Some((seq![value] + rest, end)),
            },
        }
    }
}

/// A cursor over a blob. It only moves forward, and never past the end.
pub struct Reader<'a> {
    data: &'a [u8],
    pos: usize,
}

impl<'a> Reader<'a> {
    /// The blob that is read.
    pub closed spec fn data(&self) -> Seq<u8> {
        self.data@
    }

    /// How many bytes have been read.
    pub closed spec fn pos(&self) -> int {
        self.pos as int
    }

    /// The cursor lies inside the blob or at its end.
    pub closed spec fn wf(&self) -> bool {
        self.pos <= self.data@.len()
    }

    /// A cursor at the start of `data`.
    pub fn new(data: &'a [u8]) -> (r: Self)
        ensures
            r.wf(),
            r.data() == data@,
            r.pos() == 0,
    {
        Reader { data, pos: 0 }
    }

    /// Reads one 32-bit number. `Bounds`, and the cursor stays, where fewer
    /// than four bytes are left.
    pub fn read_u32(&mut self) -> (r: Result<u32, LheError>)
        requires
            old(self).wf(),
        ensures
            final(self).wf(),
            final(self).data() == old(self).data(),
            match r {
                Ok(v) => {
                    &&& old(self).pos() + 4 <= old(self).data().len()
                    &&& v == be32_value(old(self).data(), old(self).pos())
                    &&& final(self).pos() == old(self).pos() + 4
                },
                Err(e) => {
                    &&& e == LheError::Bounds
                    &&& old(self).pos() + 4 > old(self).data().len()
                    &&& final(self).pos() == old(self).pos()
                },
            },
    {
        if self.data.len() - self.pos < 4 {
            return Err(LheError::Bounds);
        }
        let v = read_be32(self.data, self.pos);
        self.pos = self.pos + 4;
        Ok(v)
    }

    /// Steps over one run of bytes and tells where it lies: the positions of
    /// its first byte and of the byte after its last. `Bounds`, and the cursor
    /// stays, where the length field or the run would pass the end.
    pub fn skip_field(&mut self) -> (r: Result<(usize, usize), LheError>)
        requires
            old(self).wf(),
        ensures
            final(self).wf(),
            final(self).data() == old(self).data(),
            match r {
                Ok((from, to)) => {
                    &&& from == old(self).pos() + 4
                    &&& from <= to <= old(self).data().len()
                    &&& parse_field(old(self).data(), old(self).pos()) == Some(
                        (old(self).data().subrange(from as int, to as int), to as int),
                    )
                    &&& final(self).pos() == to
                },
                Err(e) => {
                    &&& e == LheError::Bounds
                    &&& parse_field(old(self).data(), old(self).pos()).is_none()
                    &&& final(self).pos() == old(self).pos()
                },
            },
    {
        let left = self.data.len() - self.pos;
        if left < 4 {
            return Err(LheError::Bounds);
        }
        let len = read_be32(self.data, self.pos) as usize;
        if left - 4 < len {
            return Err(LheError::Bounds);
        }
        let from = self.pos + 4;
        let to = from + len;
        self.pos = to;
        Ok((from, to))
    }

    /// Reads one run of bytes. `Bounds`, and the cursor stays, where the
    /// length field or the run would pass the end.
    pub fn read_field(&mut self) -> (r: Result<Vec<u8>, LheError>)
        requires
            old(self).wf(),
        ensures
            final(self).wf(),
            final(self).data() == old(self).data(),
            match r {
                Ok(value) => {
                    &&& parse_field(old(self).data(), old(self).pos()) == Some(
                        (value@, final(self).pos()),
                    )
                },
                Err(e) => {
                    &&& e == LheError::Bounds
                    &&& parse_field(old(self).data(), old(self).pos()).is_none()
                    &&& final(self).pos() == old(self).pos()
                },
            },
    {
        match self.skip_field() {
            Ok((from, to)) => Ok(slice_to_vec(slice_subrange(self.data, from, to))),
            Err(e) => Err(e),
        }
    }

    /// Accepts the blob if the cursor is at its end; `Bounds` otherwise.
    pub fn finish(&self) -> (r: Result<(), LheError>)
        requires
            self.wf(),
        ensures
            match r {
                Ok(_) => self.pos() == self.data().len(),
                Err(e) => e == LheError::Bounds && self.pos() != self.data().len(),
            },
    {
        if self.pos == self.data.len() {
            Ok(())
        } else {
            Err(LheError::Bounds)
        }
    }
}

/// Appends one run of bytes, preceded by its length. `Parameter`, and `out`
/// stays, where the length does not fit a 32-bit field.
pub fn push_field(out: &mut Vec<u8>, value: &[u8]) -> (r: Result<(), LheError>)
    ensures
        match r {
            Ok(_) => fits_field(value@.len()) && final(out)@ == old(out)@ + field_bytes(value@),
            Err(e) => e == LheError::Parameter && !fits_field(value@.len()) && final(out)@ == old(
                out,
            )@,
        },
{
    let len = value.len();
    if len > u32::MAX as usize {
        return Err(LheError::Parameter);
    }
    push_be32(out, len as u32);
    out.extend_from_slice(value);
    assert(out@ =~= old(out)@ + field_bytes(value@));
    Ok(())
}

/// Joining three runs of bytes does not depend on which two are joined first.
proof fn lemma_join_assoc(a: Seq<u8>, b: Seq<u8>, c: Seq<u8>)
    ensures
        (a + b) + c == a + (b + c),
{
    assert((a + b) + c =~= a + (b + c));
}

/// A list written run by run is the list without its last run, followed by
/// that run.
pub proof fn lemma_fields_push(items: Seq<Seq<u8>>, last: Seq<u8>)
    ensures
        fields_bytes(items.push(last)) == fields_bytes(items) + field_bytes(last),
    decreases items.len(),
{
    let all = items.push(last);
    let tail = field_bytes(last);
    if items.len() == 0 {
        assert(all.drop_first() =~= Seq::<Seq<u8>>::empty());
        assert(fields_bytes(all.drop_first()) == Seq::<u8>::empty());
        assert(fields_bytes(items) == Seq::<u8>::empty());
        assert(all[0] == last);
        assert(tail + Seq::<u8>::empty() =~= Seq::<u8>::empty() + tail);
    } else {
        assert(all.drop_first() =~= items.drop_first().push(last));
        assert(all[0] == items[0]);
        lemma_fields_push(items.drop_first(), last);
        lemma_join_assoc(field_bytes(items[0]), fields_bytes(items.drop_first()), tail);
    }
}

/// Reading a run where one was written gives that run, and the position
/// after it.
pub proof fn lemma_parse_field_written(data: Seq<u8>, at: int, value: Seq<u8>)
    requires
        0 <= at,
        fits_field(value.len()),
        at + 4 + value.len() <= data.len(),
        data.subrange(at, at + 4 + value.len()) == field_bytes(value),
    ensures
        parse_field(data, at) == Some((value, at + 4 + value.len())),
{
    let written = field_bytes(value);
    let len = value.len() as int;
    lemma_be32_value_of_bytes(len);
    assert forall|i: int| 0 <= i < 4 + len implies data[at + i] == #[trigger] written[i] by {
        assert(data.subrange(at, at + 4 + len)[i] == data[at + i]);
    }
    assert(written[0] == be32_bytes(len)[0]);
    assert(written[1] == be32_bytes(len)[1]);
    assert(written[2] == be32_bytes(len)[2]);
    assert(written[3] == be32_bytes(len)[3]);
    assert(be32_value(data, at) == be32_value(be32_bytes(len), 0));
    assert(data.subrange(at + 4, at + 4 + len) =~= value) by {
        assert forall|i: int| 0 <= i < len implies data[at + 4 + i] == value[i] by {
            assert(written[4 + i] == value[i]);
        }
    }
}

/// Reading a list where one was written, up to the end of the blob, gives
/// that list and ends at the end of the blob.
pub proof fn lemma_parse_fields_written(data: Seq<u8>, at: int, items: Seq<Seq<u8>>)
    requires
        0 <= at <= data.len(),
        forall|i: int| 0 <= i < items.len() ==> fits_field(#[trigger] items[i].len()),
        data.subrange(at, data.len() as int) == fields_bytes(items),
    ensures
        parse_fields(data, at, items.len()) == Some((items, data.len() as int)),
    decreases items.len(),
{
    if items.len() == 0 {
        assert(items =~= Seq::<Seq<u8>>::empty());
        assert(data.subrange(at, data.len() as int).len() == 0);
    } else {
        let head = items[0];
        let rest = items.drop_first();
        let tail = data.subrange(at, data.len() as int);
        assert(tail == field_bytes(head) + fields_bytes(rest));
        assert(tail.len() == 4 + head.len() + fields_bytes(rest).len());
        let next = at + 4 + head.len();
        assert(data.subrange(at, next) =~= field_bytes(head)) by {
            assert forall|i: int| 0 <= i < 4 + head.len() implies data[at + i] == field_bytes(
                head,
            )[i] by {
                assert(tail[i] == data[at + i]);
            }
        }
        lemma_parse_field_written(data, at, head);
        assert(data.subrange(next, data.len() as int) =~= fields_bytes(rest)) by {
            assert forall|i: int| 0 <= i < fields_bytes(rest).len() implies data[next + i]
                == fields_bytes(rest)[i] by {
                assert(tail[4 + head.len() + i] == data[next + i]);
            }
        }
        assert forall|i: int| 0 <= i < rest.len() implies fits_field(#[trigger] rest[i].len()) by {
            assert(rest[i] == items[i + 1]);
        }
        lemma_parse_fields_written(data, next, rest);
        assert(seq![head] + rest =~= items);
    }
}

/// The encrypted key shares of every node, with the policy they were made
/// under.
#[derive(Clone, Debug, PartialEq)]
pub struct KeyBundle {
    pub t: u32,
    pub n: u32,
    pub shares: Vec<Vec<u8>>,
}

/// What a key bundle holds.
pub struct KeyBundleView {
    pub t: int,
    pub n: int,
    pub shares: Seq<Seq<u8>>,
}

impl View for KeyBundle {
    type V = KeyBundleView;

    open spec fn view(&self) -> KeyBundleView {
        KeyBundleView { t: self.t as int, n: self.n as int, shares: runs(self.shares@) }
    }
}

impl KeyBundleView {
    /// Whether the bundle can be written: both numbers, the count and each
    /// length fit a 32-bit field.
    pub open spec fn fits(self) -> bool {
        &&& 0 <= self.t <= u32::MAX
        &&& 0 <= self.n <= u32::MAX
        &&& all_fit(self.shares)
    }

    /// The bundle on the wire: `t`, `n`, the count, then each share.
    pub open spec fn bytes(self) -> Seq<u8> {
        be32_bytes(self.t) + be32_bytes(self.n) + be32_bytes(self.shares.len() as int)
            + fields_bytes(self.shares)
    }
}

/// The key bundle that `data` holds. `None` where a field would pass the end
/// of `data`, or the last share does not end where `data` ends.
pub open spec fn parse_key_bundle(data: Seq<u8>) -> Option<KeyBundleView> {
    if data.len() < 12 {
        None
    } else {
        match parse_fields(data, 12, be32_value(data, 8) as nat) {
            None => None,
            Some((shares, end)) => if end == data.len() {
                Some(KeyBundleView { t: be32_value(data, 0), n: be32_value(data, 4), shares })
            } else {
                None
            },
        }
    }
}

/// Writes a key bundle. `Parameter` where there are more shares, or a share
/// has more bytes, than a 32-bit field can count.
pub fn encode_key_bundle(t: u32, n: u32, shares: &Vec<Vec<u8>>) -> (r: Result<Vec<u8>, LheError>)
    ensures
        match r {
            Ok(bytes) => all_fit(runs(shares@)) && bytes@ == (KeyBundleView {
                t: t as int,
                n: n as int,
                shares: runs(shares@),
            }).bytes(),
            Err(e) => e == LheError::Parameter && !all_fit(runs(shares@)),
        },
{
    let count = shares.len();
    if count > u32::MAX as usize {
        return Err(LheError::Parameter);
    }
    let mut out: Vec<u8> = Vec::new();
    push_be32(&mut out, t);
    push_be32(&mut out, n);
    push_be32(&mut out, count as u32);
    let ghost head = out@;
    assert(head =~= be32_bytes(t as int) + be32_bytes(n as int) + be32_bytes(count as int));
    let mut i: usize = 0;
    while i < count
        invariant
            count == shares@.len(),
            i <= count,
            forall|j: int| 0 <= j < i ==> fits_field(#[trigger] runs(shares@)[j].len()),
            out@ == head + fields_bytes(runs(shares@).take(i as int)),
        decreases count - i,
    {
        match push_field(&mut out, shares[i].as_slice()) {
            Ok(_) => {},
            Err(e) => {
                assert(!fits_field(runs(shares@)[i as int].len()));
                return Err(e);
            },
        }
        proof {
            let done = runs(shares@).take(i as int);
            let item = runs(shares@)[i as int];
            assert(runs(shares@).take(i + 1) =~= done.push(item));
            lemma_fields_push(done, item);
            lemma_join_assoc(head, fields_bytes(done), field_bytes(item));
        }
        i += 1;
    }
    assert(runs(shares@).take(count as int) =~= runs(shares@));
    Ok(out)
}

/// Reads a key bundle whole. `Bounds` where a field would pass the end of
/// `data`, or the last share does not end where `data` ends.
pub fn decode_key_bundle(data: &[u8]) -> (r: Result<KeyBundle, LheError>)
    ensures
        match r {
            Ok(bundle) => parse_key_bundle(data@) == Some(bundle@),
            Err(e) => e == LheError::Bounds && parse_key_bundle(data@).is_none(),
        },
{
    let mut reader = Reader::new(data);
    let t = reader.read_u32()?;
    let n = reader.read_u32()?;
    let count = reader.read_u32()?;
    let mut shares: Vec<Vec<u8>> = Vec::new();
    let mut i: u32 = 0;
    while i < count
        invariant
            reader.wf(),
            reader.data() == data@,
            12 <= reader.pos(),
            t == be32_value(data@, 0),
            n == be32_value(data@, 4),
            count == be32_value(data@, 8),
            i <= count,
            shares@.len() == i,
            parse_fields(data@, 12, count as nat) == match parse_fields(
                data@,
                reader.pos(),
                (count - i) as nat,
            ) {
                None => None::<(Seq<Seq<u8>>, int)>,
                Some((rest, end)) => Some((runs(shares@) + rest, end)),
            },
        decreases count - i,
    {
        let ghost done = runs(shares@);
        let ghost at = reader.pos();
        let share = match reader.read_field() {
            Ok(share) => share,
            Err(e) => {
                assert(parse_fields(data@, at, (count - i) as nat).is_none());
                return Err(e);
            },
        };
        shares.push(share);
        proof {
            let next = reader.pos();
            let value = share@;
            assert(runs(shares@) =~= done.push(value));
            match parse_fields(data@, next, (count - i - 1) as nat) {
                None => {},
                Some((rest, end)) => {
                    assert(done + (seq![value] + rest) =~= done.push(value) + rest);
                },
            }
        }
        i += 1;
    }
    assert(runs(shares@) + Seq::<Seq<u8>>::empty() =~= runs(shares@));
    reader.finish()?;
    Ok(KeyBundle { t, n, shares })
}

/// One share picked out of a key bundle, with the bundle's policy.
#[derive(Clone, Debug, PartialEq)]
pub struct LocatedShare {
    pub t: u32,
    pub n: u32,
    pub share: Vec<u8>,
}

/// Whether `index`, counted from one, names a share of `bundle` that holds at
/// least one byte.
pub open spec fn names_share(bundle: KeyBundleView, index: int) -> bool {
    1 <= index <= bundle.shares.len() && bundle.shares[index - 1].len() > 0
}

/// Picks the share with the number `index`, counted from one, out of a key
/// bundle. The entries are walked by their length fields, and only the one
/// asked for is copied. `Bounds` where the bundle is not well formed;
/// otherwise `Parameter` where the bundle has no share of that number, or the
/// share is empty.
pub fn locate_share(data: &[u8], index: usize) -> (r: Result<LocatedShare, LheError>)
    ensures
        match parse_key_bundle(data@) {
            None => r == Err::<LocatedShare, LheError>(LheError::Bounds),
            Some(bundle) => if names_share(bundle, index as int) {
                &&& r.is_ok()
                &&& r.unwrap().t == bundle.t
                &&& r.unwrap().n == bundle.n
                &&& r.unwrap().share@ == bundle.shares[index - 1]
            } else {
                r == Err::<LocatedShare, LheError>(LheError::Parameter)
            },
        },
{
    let mut reader = Reader::new(data);
    let t = reader.read_u32()?;
    let n = reader.read_u32()?;
    let count = reader.read_u32()?;
    let mut from: usize = 0;
    let mut to: usize = 0;
    let ghost mut done: Seq<Seq<u8>> = Seq::empty();
    let mut i: u32 = 0;
    while i < count
        invariant
            reader.wf(),
            reader.data() == data@,
            12 <= reader.pos(),
            t == be32_value(data@, 0),
            n == be32_value(data@, 4),
            count == be32_value(data@, 8),
            i <= count,
            done.len() == i,
            parse_fields(data@, 12, count as nat) == match parse_fields(
                data@,
                reader.pos(),
                (count - i) as nat,
            ) {
                None => None::<(Seq<Seq<u8>>, int)>,
                Some((rest, end)) => Some((done + rest, end)),
            },
            from <= to <= data@.len(),
            1 <= index <= i ==> data@.subrange(from as int, to as int) == done[index - 1],
        decreases count - i,
    {
        let ghost at = reader.pos();
        let (a, b) = match reader.skip_field() {
            Ok(range) => range,
            Err(e) => {
                assert(parse_fields(data@, at, (count - i) as nat).is_none());
                return Err(e);
            },
        };
        if i as usize + 1 == index {
            from = a;
            to = b;
        }
        proof {
            let value = data@.subrange(a as int, b as int);
            match parse_fields(data@, b as int, (count - i - 1) as nat) {
                None => {},
                Some((rest, end)) => {
                    assert(done + (seq![value] + rest) =~= done.push(value) + rest);
                },
            }
            done = done.push(value);
        }
        i += 1;
    }
    assert(done + Seq::<Seq<u8>>::empty() =~= done);
    reader.finish()?;
    if index == 0 || index > count as usize || from == to {
        return Err(LheError::Parameter);
    }
    let share = slice_to_vec(slice_subrange(data, from, to));
    Ok(LocatedShare { t, n, share })
}

/// An encrypted message, with its nonce and the policy it was made under.
#[derive(Clone, Debug, PartialEq)]
pub struct MessageBundle {
    pub t: u32,
    pub n: u32,
    pub nonce: Vec<u8>,
    pub enc_msg: Vec<u8>,
}

/// What a message bundle holds.
pub struct MessageBundleView {
    pub t: int,
    pub n: int,
    pub nonce: Seq<u8>,
    pub enc_msg: Seq<u8>,
}

impl View for MessageBundle {
    type V = MessageBundleView;

    open spec fn view(&self) -> MessageBundleView {
        MessageBundleView {
            t: self.t as int,
            n: self.n as int,
            nonce: self.nonce@,
            enc_msg: self.enc_msg@,
        }
    }
}

impl MessageBundleView {
    /// Whether the bundle can be written: both numbers and both lengths fit a
    /// 32-bit field.
    pub open spec fn fits(self) -> bool {
        &&& 0 <= self.t <= u32::MAX
        &&& 0 <= self.n <= u32::MAX
        &&& fits_field(self.nonce.len())
        &&& fits_field(self.enc_msg.len())
    }

    /// The bundle on the wire: `t`, `n`, the nonce, the encrypted message.
    pub open spec fn bytes(self) -> Seq<u8> {
        be32_bytes(self.t) + be32_bytes(self.n) + field_bytes(self.nonce) + field_bytes(
            self.enc_msg,
        )
    }
}

/// The message bundle that `data` holds. `None` where a field would pass the
/// end of `data`, or the encrypted message does not end where `data` ends.
pub open spec fn parse_message_bundle(data: Seq<u8>) -> Option<MessageBundleView> {
    if data.len() < 8 {
        None
    } else {
        match parse_field(data, 8) {
            None => None,
            Some((nonce, next)) => match parse_field(data, next) {
                None => None,
                Some((enc_msg, end)) => if end == data.len() {
                    Some(
                        MessageBundleView {
                            t: be32_value(data, 0),
                            n: be32_value(data, 4),
                            nonce,
                            enc_msg,
                        },
                    )
                } else {
                    None
                },
            },
        }
    }
}

/// Writes a message bundle. `Parameter` where the nonce or the encrypted
/// message has more bytes than a 32-bit field can count.
pub fn encode_message_bundle(t: u32, n: u32, nonce: &[u8], enc_msg: &[u8]) -> (r: Result<
    Vec<u8>,
    LheError,
>)
    ensures
        match r {
            Ok(bytes) => fits_field(nonce@.len()) && fits_field(enc_msg@.len()) && bytes@ == (
            MessageBundleView { t: t as int, n: n as int, nonce: nonce@, enc_msg: enc_msg@ }).bytes(),
            Err(e) => e == LheError::Parameter && !(fits_field(nonce@.len()) && fits_field(
                enc_msg@.len(),
            )),
        },
{
    let mut out: Vec<u8> = Vec::new();
    push_be32(&mut out, t);
    push_be32(&mut out, n);
    push_field(&mut out, nonce)?;
    push_field(&mut out, enc_msg)?;
    assert(out@ =~= be32_bytes(t as int) + be32_bytes(n as int) + field_bytes(nonce@)
        + field_bytes(enc_msg@));
    Ok(out)
}

/// Reads a message bundle. `Bounds` where a field would pass the end of
/// `data`, or the encrypted message does not end where `data` ends.
pub fn decode_message_bundle(data: &[u8]) -> (r: Result<MessageBundle, LheError>)
    ensures
        match r {
            Ok(bundle) => parse_message_bundle(data@) == Some(bundle@),
            Err(e) => e == LheError::Bounds && parse_message_bundle(data@).is_none(),
        },
{
    let mut reader = Reader::new(data);
    let t = reader.read_u32()?;
    let n = reader.read_u32()?;
    let nonce = reader.read_field()?;
    let enc_msg = reader.read_field()?;
    reader.finish()?;
    Ok(MessageBundle { t, n, nonce, enc_msg })
}

/// One value on the wire: a single run of bytes.
pub open spec fn value_bundle_bytes(value: Seq<u8>) -> Seq<u8> {
    field_bytes(value)
}

/// The value that `data` holds. `None` where the run would pass the end of
/// `data`, or does not end where `data` ends.
pub open spec fn parse_value_bundle(data: Seq<u8>) -> Option<Seq<u8>> {
    match parse_field(data, 0) {
        None => None,
        Some((value, end)) => if end == data.len() {
            Some(value)
        } else {
            None
        },
    }
}

/// Writes one value as a bundle. `Parameter` where it has more bytes than a
/// 32-bit field can count.
pub fn encode_value_bundle(value: &[u8]) -> (r: Result<Vec<u8>, LheError>)
    ensures
        match r {
            Ok(bytes) => fits_field(value@.len()) && bytes@ == value_bundle_bytes(value@),
            Err(e) => e == LheError::Parameter && !fits_field(value@.len()),
        },
{
    let mut out: Vec<u8> = Vec::new();
    push_field(&mut out, value)?;
    assert(out@ =~= field_bytes(value@));
    Ok(out)
}

/// Reads a bundle of one value. `Bounds` where the run would pass the end of
/// `data`, or does not end where `data` ends.
pub fn decode_value_bundle(data: &[u8]) -> (r: Result<Vec<u8>, LheError>)
    ensures
        match r {
            Ok(value) => parse_value_bundle(data@) == Some(value@),
            Err(e) => e == LheError::Bounds && parse_value_bundle(data@).is_none(),
        },
{
    let mut reader = Reader::new(data);
    let value = reader.read_field()?;
    reader.finish()?;
    Ok(value)
}

/// The number at the head of a blob that starts with a 32-bit field.
proof fn lemma_be32_value_at(data: Seq<u8>, at: int, v: int)
    requires
        0 <= v <= u32::MAX,
        0 <= at,
        at + 4 <= data.len(),
        data.subrange(at, at + 4) == be32_bytes(v),
    ensures
        be32_value(data, at) == v,
{
    lemma_be32_value_of_bytes(v);
    let head = data.subrange(at, at + 4);
    assert(head[0] == data[at]);
    assert(head[1] == data[at + 1]);
    assert(head[2] == data[at + 2]);
    assert(head[3] == data[at + 3]);
}

/// A key bundle that is written and read again is the same bundle: the same
/// policy and the same shares, however many there are and whatever their
/// lengths.
pub proof fn lemma_key_bundle_round_trip(bundle: KeyBundleView)
    requires
        bundle.fits(),
    ensures
        parse_key_bundle(bundle.bytes()) == Some(bundle),
{
    let data = bundle.bytes();
    let count = bundle.shares.len() as int;
    let list = fields_bytes(bundle.shares);
    assert(data.len() == 12 + list.len());
    assert(data.subrange(0, 4) =~= be32_bytes(bundle.t));
    assert(data.subrange(4, 8) =~= be32_bytes(bundle.n));
    assert(data.subrange(8, 12) =~= be32_bytes(count));
    lemma_be32_value_at(data, 0, bundle.t);
    lemma_be32_value_at(data, 4, bundle.n);
    lemma_be32_value_at(data, 8, count);
    assert(data.subrange(12, data.len() as int) =~= list);
    lemma_parse_fields_written(data, 12, bundle.shares);
}

/// A message bundle that is written and read again is the same bundle.
pub proof fn lemma_message_bundle_round_trip(bundle: MessageBundleView)
    requires
        bundle.fits(),
    ensures
        parse_message_bundle(bundle.bytes()) == Some(bundle),
{
    let data = bundle.bytes();
    let next = 12 + bundle.nonce.len() as int;
    assert(data.len() == 16 + bundle.nonce.len() + bundle.enc_msg.len());
    assert(data.subrange(0, 4) =~= be32_bytes(bundle.t));
    assert(data.subrange(4, 8) =~= be32_bytes(bundle.n));
    lemma_be32_value_at(data, 0, bundle.t);
    lemma_be32_value_at(data, 4, bundle.n);
    assert(data.subrange(8, next) =~= field_bytes(bundle.nonce));
    lemma_parse_field_written(data, 8, bundle.nonce);
    assert(data.subrange(next, data.len() as int) =~= field_bytes(bundle.enc_msg));
    lemma_parse_field_written(data, next, bundle.enc_msg);
}

/// A value that is written as a bundle and read again is the same value.
pub proof fn lemma_value_bundle_round_trip(value: Seq<u8>)
    requires
        fits_field(value.len()),
    ensures
        parse_value_bundle(value_bundle_bytes(value)) == Some(value),
{
    let data = value_bundle_bytes(value);
    assert(data.subrange(0, data.len() as int) =~= field_bytes(value));
    lemma_parse_field_written(data, 0, value);
}

/// A list is not read beyond a run that cannot be read: where the first `k`
/// runs end at `pos` and no run can be read there, no longer list can be read
/// either.
pub proof fn lemma_fields_stop(data: Seq<u8>, at: int, k: nat, count: nat)
    requires
        k < count,
        parse_fields(data, at, k).is_some(),
        parse_field(data, parse_fields(data, at, k).unwrap().1).is_none(),
    ensures
        parse_fields(data, at, count).is_none(),
    decreases k,
{
    if k > 0 {
        let next = parse_field(data, at).unwrap().1;
        lemma_fields_stop(data, next, (k - 1) as nat, (count - 1) as nat);
    }
}

/// A length field that declares more bytes than are left is a failure of
/// each kind of bundle: of a single value at its only run, of a message at
/// its nonce or at its encrypted message, and of a list of shares at any
/// share. The readers report `Bounds` exactly where these say `None`, and
/// they never index past the end, so nothing beyond the blob is ever read.
pub proof fn lemma_overrun_rejected(data: Seq<u8>, at: int, k: nat)
    requires
        0 <= at,
        at + 4 <= data.len(),
        at + 4 + be32_value(data, at) > data.len(),
    ensures
        parse_field(data, at).is_none(),
        at == 0 ==> parse_value_bundle(data).is_none(),
        at == 8 ==> parse_message_bundle(data).is_none(),
        parse_field(data, 8).is_some() && at == parse_field(data, 8).unwrap().1
            ==> parse_message_bundle(data).is_none(),
        k < be32_value(data, 8) && parse_fields(data, 12, k).is_some() && at == parse_fields(
            data,
            12,
            k,
        ).unwrap().1 ==> parse_key_bundle(data).is_none(),
{
    if k < be32_value(data, 8) && parse_fields(data, 12, k).is_some() && at == parse_fields(
        data,
        12,
        k,
    ).unwrap().1 {
        lemma_fields_stop(data, 12, k, be32_value(data, 8) as nat);
    }
}

} // verus!
