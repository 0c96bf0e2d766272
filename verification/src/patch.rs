//! Byte patches that are laid over the input before any pass reads it.
use vstd::prelude::*;
use crate::error::{Error, ErrorView};

verus! {

/// One change to the input buffer.
#[derive(Clone, Debug)]
pub enum Patch {
    /// The given bytes, written from `offset` on.
    Data { offset: usize, data: Vec<u8> },
    /// `len` copies of `byte`, written from `offset` on.
    Rep { offset: usize, byte: u8, len: usize },
    /// The bytes of the file at `path`, written from `offset` on. The caller
    /// reads the file and hands its bytes over as a `Data` patch.
    File { offset: usize, path: String },
}

/// `data`, brought to at least `len` bytes by zeros at its end.
pub open spec fn padded(data: Seq<u8>, len: int) -> Seq<u8> {
    if data.len() >= len {
        data
    } else {
        data + Seq::new((len - data.len()) as nat, |i: int| 0u8)
    }
}

/// `data` with `patch` written from `offset` on, where `data` reaches up to
/// `offset`: bytes of `data` under the patch are overwritten, and where the
/// patch runs past the end, `data` ends with the patch.
pub open spec fn laid(data: Seq<u8>, offset: int, patch: Seq<u8>) -> Seq<u8>
    recommends
        0 <= offset <= data.len(),
{
    if offset + patch.len() <= data.len() {
        data.take(offset) + patch + data.skip(offset + patch.len())
    } else {
        data.take(offset) + patch
    }
}

/// `data` with `patch` written at `offset`. Where `offset` lies past the end
/// of `data`, zeros fill the gap; where the patch runs past the end, `data`
/// is extended. A patch without bytes changes nothing.
pub open spec fn overlay(data: Seq<u8>, offset: int, patch: Seq<u8>) -> Seq<u8> {
    if patch.len() == 0 {
        data
    } else {
        laid(padded(data, offset), offset, patch)
    }
}

/// Writes `patch` into `data` at `offset`, filling a gap before `offset`
/// with zeros and extending `data` where the patch runs past its end. A patch
/// that would end past the largest index is refused and leaves `data` as it
/// is.
pub fn apply_bytes(data: &mut Vec<u8>, offset: usize, patch: &[u8]) -> (r: Result<(), Error>)
    ensures
        offset + patch@.len() <= usize::MAX ==> r is Ok && final(data)@ == overlay(
            old(data)@,
            offset as int,
            patch@,
        ),
        offset + patch@.len() > usize::MAX ==> r is Err && r->Err_0@ == ErrorView::PatchOffsetOutOfRange(
            offset,
        ) && final(data)@ == old(data)@,
{
    if patch.len() > usize::MAX - offset {
        return Err(Error::PatchOffsetOutOfRange(offset));
    }
    if patch.len() == 0 {
        return Ok(());
    }
    while data.len() < offset
        invariant
            data@.len() <= offset || data@ == old(data)@,
            data@ == padded(old(data)@, data@.len() as int),
        decreases offset - data.len(),
    {
        data.push(0);
        assert(data@ =~= padded(old(data)@, data@.len() as int));
    }
    let ghost base = data@;
    assert(base == padded(old(data)@, offset as int));
    let mut i: usize = 0;
    while i < patch.len()
        invariant
            i <= patch.len(),
            offset <= base.len(),
            offset + patch@.len() <= usize::MAX,
            data@ == laid(base, offset as int, patch@.take(i as int)),
        decreases patch.len() - i,
    {
        let b = patch[i];
        let ghost before = data@;
        if i < data.len() - offset {
            data[offset + i] = b;
            assert(data@ == before.update(offset + i, b));
        } else {
            data.push(b);
        }
        i += 1;
        proof {
            let shorter = patch@.take(i - 1);
            let longer = patch@.take(i as int);
            assert(longer =~= shorter.push(b));
            if offset + longer.len() <= base.len() {
                assert(before.len() == base.len());
                assert(data@ =~= base.take(offset as int) + longer + base.skip(offset + longer.len()));
            } else {
                assert(before.len() == if offset + shorter.len() <= base.len() {
                    base.len() as int
                } else {
                    offset + shorter.len()
                });
                assert(data@ =~= base.take(offset as int) + longer);
            }
        }
    }
    assert(patch@.take(i as int) =~= patch@);
    Ok(())
}

impl Patch {
    /// The offset at which the patch starts.
    pub open spec fn spec_offset(&self) -> usize {
        match self {
            Patch::Data { offset, .. } => *offset,
            Patch::Rep { offset, .. } => *offset,
            Patch::File { offset, .. } => *offset,
        }
    }

    /// The bytes that the patch writes, where the patch itself holds them.
    pub open spec fn spec_bytes(&self) -> Option<Seq<u8>> {
        match self {
            Patch::Data { data, .. } => Some(data@),
            Patch::Rep { byte, len, .. } => Some(Seq::new(*len as nat, |i: int| *byte)),
            Patch::File { .. } => None,
        }
    }

    /// What applying the patch to `data` gives: the patched bytes; for a file
    /// whose bytes were not handed over, the failure that names it; for a
    /// patch that would end past the largest index, the failure that names
    /// its offset.
    pub open spec fn spec_apply(&self, data: Seq<u8>) -> Result<Seq<u8>, ErrorView> {
        match self {
            Patch::File { path, .. } => Err(ErrorView::Io(path@)),
            _ => if self.spec_offset() + self.spec_bytes()->0.len() > usize::MAX {
                Err(ErrorView::PatchOffsetOutOfRange(self.spec_offset()))
            } else {
                Ok(overlay(data, self.spec_offset() as int, self.spec_bytes()->0))
            },
        }
    }

    /// Applies the patch to `data`. A patch that fails leaves `data` as it is.
    pub fn apply(&self, data: &mut Vec<u8>) -> (r: Result<(), Error>)
        ensures
            match self.spec_apply(old(data)@) {
                Ok(patched) => r is Ok && final(data)@ == patched,
                Err(e) => r is Err && r->Err_0@ == e && final(data)@ == old(data)@,
            },
    {
        match self {
            Patch::Data { offset, data: bytes } => apply_bytes(data, *offset, bytes.as_slice()),
            Patch::Rep { offset, byte, len } => {
                if *len > usize::MAX - *offset {
                    return Err(Error::PatchOffsetOutOfRange(*offset));
                }
                let mut bytes: Vec<u8> = Vec::new();
                let mut i: usize = 0;
                while i < *len
                    invariant
                        i <= *len,
                        bytes@ == Seq::new(i as nat, |k: int| *byte),
                    decreases *len - i,
                {
                    bytes.push(*byte);
                    i += 1;
                    assert(bytes@ =~= Seq::new(i as nat, |k: int| *byte));
                }
                apply_bytes(data, *offset, bytes.as_slice())
            },
            Patch::File { offset: _, path } => Err(Error::Io(path.clone())),
        }
    }
}

/// What applying `patches`, from the one at `from` on and in list order,
/// gives: the first failure stops the run.
pub open spec fn patched(patches: Seq<Patch>, from: int, data: Seq<u8>) -> Result<Seq<u8>, ErrorView>
    decreases patches.len() - from,
{
    if from < 0 || from >= patches.len() {
        Ok(data)
    } else {
        match patches[from].spec_apply(data) {
            Ok(next) => patched(patches, from + 1, next),
            Err(e) => Err(e),
        }
    }
}

/// Applies every patch of `patches` in list order to a copy of `data`.
pub fn apply_all(patches: &Vec<Patch>, data: &[u8]) -> (r: Result<Vec<u8>, Error>)
    ensures
        match patched(patches@, 0, data@) {
            Ok(bytes) => r is Ok && r->Ok_0@ == bytes,
            Err(e) => r is Err && r->Err_0@ == e,
        },
{
    let mut out: Vec<u8> = Vec::new();
    let mut k: usize = 0;
    while k < data.len()
        invariant
            k <= data.len(),
            out@ == data@.take(k as int),
        decreases data.len() - k,
    {
        out.push(data[k]);
        k += 1;
        assert(out@ =~= data@.take(k as int));
    }
    assert(data@.take(k as int) =~= data@);
    let mut i: usize = 0;
    while i < patches.len()
        invariant
            i <= patches.len(),
            patched(patches@, 0, data@) == patched(patches@, i as int, out@),
        decreases patches.len() - i,
    {
        match patches[i].apply(&mut out) {
            Ok(()) => {},
            Err(e) => {
                return Err(e);
            },
        }
        i += 1;
    }
    Ok(out)
}

} // verus!
