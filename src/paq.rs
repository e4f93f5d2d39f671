//! The asset pack: the magic `paq\0`, then named assets back to back. Each
//! asset is its name, a zero byte, its length as a little-endian `u32`, and
//! that many bytes. Decoding the assets themselves is left to the host.
use vstd::prelude::*;

verus! {

/// Why a pack was refused.
#[derive(Debug, Clone, Copy, PartialEq, Eq, Structural)]
pub enum PaqError {
    /// It does not start with `paq\0`.
    BadMagic,
    /// A name runs to the end without its zero byte.
    MissingData,
    /// Fewer than four bytes are left for a length.
    BrokenSize,
    /// Fewer bytes are left than the length announces.
    ShortAsset,
}

/// One asset of a pack: its name and its bytes.
#[derive(Debug)]
pub struct PaqEntry {
    pub name: Vec<u8>,
    pub data: Vec<u8>,
}

impl View for PaqEntry {
    type V = (Seq<u8>, Seq<u8>);

    open spec fn view(&self) -> (Seq<u8>, Seq<u8>) {
        (self.name@, self.data@)
    }
}

/// A pack, the kind of asset the loader produces.
pub struct Paq;

/// Reads packs.
#[derive(Default)]
pub struct Loader;

pub open spec fn magic() -> Seq<u8> {
    seq![0x70u8, 0x61u8, 0x71u8, 0u8]
}

/// The little-endian number in four bytes.
pub open spec fn le_u32(b: Seq<u8>) -> int {
    b[0] + 256 * b[1] + 65536 * b[2] + 16777216 * b[3]
}

/// How many bytes come before the first zero byte (all of them if none).
pub open spec fn name_len(d: Seq<u8>) -> nat
    decreases d.len(),
{
    if d.len() == 0 || d[0] == 0 {
        0
    } else {
        1 + name_len(d.skip(1))
    }
}

/// The assets of a pack body, or why it is broken.
pub open spec fn entries_of(d: Seq<u8>) -> Result<Seq<(Seq<u8>, Seq<u8>)>, PaqError>
    decreases d.len(),
{
    let n = name_len(d) as int;
    if d.len() == 0 {
        Ok(seq![])
    } else if n >= d.len() {
        Err(PaqError::MissingData)
    } else if d.len() - n - 1 < 4 {
        Err(PaqError::BrokenSize)
    } else {
        let len = le_u32(d.subrange(n + 1, n + 5));
        if d.len() - (n + 5) < len {
            Err(PaqError::ShortAsset)
        } else {
            match entries_of(d.skip(n + 5 + len)) {
                Ok(rest) => Ok(seq![(d.take(n), d.subrange(n + 5, n + 5 + len))] + rest),
                Err(e) => Err(e),
            }
        }
    }
}

/// The assets of a whole pack, or why it is refused.
pub open spec fn paq_of(bytes: Seq<u8>) -> Result<Seq<(Seq<u8>, Seq<u8>)>, PaqError> {
    if bytes.len() < 4 || bytes.take(4) != magic() {
        Err(PaqError::BadMagic)
    } else {
        entries_of(bytes.skip(4))
    }
}

proof fn lemma_name_len(d: Seq<u8>)
    ensures
        0 <= name_len(d) <= d.len(),
        forall|i: int| 0 <= i < name_len(d) ==> d[i] != 0,
        name_len(d) < d.len() ==> d[name_len(d) as int] == 0,
    decreases d.len(),
{
    if d.len() > 0 && d[0] != 0 {
        lemma_name_len(d.skip(1));
        assert forall|i: int| 0 <= i < name_len(d) implies d[i] != 0 by {
            if i > 0 {
                assert(d[i] == d.skip(1)[i - 1]);
            }
        }
    }
}

/// Splits `data` at `idx`, if it is that long.
pub fn try_split(data: &[u8], idx: usize) -> (r: Option<(&[u8], &[u8])>)
    ensures
        match r {
            Some((a, b)) => idx <= data@.len() && a@ == data@.take(idx as int) && b@ == data@.skip(
                idx as int,
            ),
            None => data@.len() < idx,
        },
{
    if data.len() < idx {
        None
    } else {
        Some(data.split_at(idx))
    }
}

/// The little-endian `u32` in the first four bytes.
pub fn read_u32_le(b: &[u8]) -> (r: u32)
    requires
        b@.len() >= 4,
    ensures
        r == le_u32(b@),
{
    b[0] as u32 + 256 * (b[1] as u32) + 65536 * (b[2] as u32) + 16777216 * (b[3] as u32)
}

/// The position of the first zero byte from `from` on, or the length.
fn find_zero(data: &[u8], from: usize) -> (r: usize)
    requires
        from <= data@.len(),
    ensures
        r == from + name_len(data@.skip(from as int)),
{
    let mut i = from;
    proof {
        lemma_name_len(data@.skip(from as int));
    }
    while i < data.len() && data[i] != 0
        invariant
            from <= i <= data@.len(),
            name_len(data@.skip(from as int)) == (i - from) + name_len(data@.skip(i as int)),
        decreases data@.len() - i,
    {
        proof {
            assert(data@.skip(i as int).skip(1) =~= data@.skip(i + 1));
        }
        i = i + 1;
    }
    proof {
        if i < data@.len() {
            assert(data@.skip(i as int)[0] == 0);
        }
    }
    i
}

/// The bytes of `data` from `from` up to `to`.
fn copy_range(data: &[u8], from: usize, to: usize) -> (r: Vec<u8>)
    requires
        from <= to <= data@.len(),
    ensures
        r@ == data@.subrange(from as int, to as int),
{
    let mut r: Vec<u8> = Vec::new();
    let mut i = from;
    while i < to
        invariant
            from <= i <= to <= data@.len(),
            r@ == data@.subrange(from as int, i as int),
        decreases to - i,
    {
        r.push(data[i]);
        i = i + 1;
        proof {
            assert(r@ =~= data@.subrange(from as int, i as int));
        }
    }
    r
}

impl Loader {
    /// Reads the assets of a pack, in order.
    pub fn load(&self, bytes: &[u8]) -> (r: Result<Vec<PaqEntry>, PaqError>)
        ensures
            match r {
                Ok(entries) => paq_of(bytes@) matches Ok(es) && entries@.map_values(
                    |e: PaqEntry| e@,
                ) == es,
                Err(e) => paq_of(bytes@) == Err::<Seq<(Seq<u8>, Seq<u8>)>, PaqError>(e),
            },
    {
        if bytes.len() < 4 || bytes[0] != 0x70 || bytes[1] != 0x61 || bytes[2] != 0x71 || bytes[3]
            != 0 {
            proof {
                if bytes@.len() >= 4 {
                    assert(bytes@.take(4) != magic()) by {
                        if bytes@.take(4) == magic() {
                            assert(bytes@.take(4)[0] == magic()[0]);
                            assert(bytes@.take(4)[1] == magic()[1]);
                            assert(bytes@.take(4)[2] == magic()[2]);
                            assert(bytes@.take(4)[3] == magic()[3]);
                        }
                    }
                }
            }
            return Err(PaqError::BadMagic);
        }
        proof {
            assert(bytes@.take(4) =~= magic());
        }
        let ghost body = bytes@.skip(4);
        proof {
            assert(bytes@.skip(4 as int) =~= body);
        }
        let mut out: Vec<PaqEntry> = Vec::new();
        let mut pos: usize = 4;
        proof {
            assert(out@.map_values(|e: PaqEntry| e@) =~= Seq::<(Seq<u8>, Seq<u8>)>::empty());
            if let Ok(rest) = entries_of(body) {
                assert(Seq::<(Seq<u8>, Seq<u8>)>::empty() + rest =~= rest);
            }
        }
        while pos < bytes.len()
            invariant
                4 <= pos <= bytes@.len(),
                body == bytes@.skip(4),
                paq_of(bytes@) == entries_of(body),
                entries_of(body) == match entries_of(bytes@.skip(pos as int)) {
                    Ok(rest) => Ok(out@.map_values(|e: PaqEntry| e@) + rest),
                    Err(e) => Err::<Seq<(Seq<u8>, Seq<u8>)>, PaqError>(e),
                },
            decreases bytes@.len() - pos,
        {
            let ghost d = bytes@.skip(pos as int);
            let zero = find_zero(bytes, pos);
            proof {
                lemma_name_len(d);
                assert(d.len() == bytes@.len() - pos);
            }
            if zero >= bytes.len() {
                proof {
                    assert(entries_of(d) == Err::<Seq<(Seq<u8>, Seq<u8>)>, PaqError>(PaqError::MissingData));
                }
                return Err(PaqError::MissingData);
            }
            if bytes.len() - zero - 1 < 4 {
                return Err(PaqError::BrokenSize);
            }
            let start = zero + 5;
            let (_, size_bytes) = bytes.split_at(zero + 1);
            let len = read_u32_le(size_bytes);
            proof {
                assert(size_bytes@.take(4) =~= d.subrange(name_len(d) as int + 1, name_len(d) as int + 5));
                assert(le_u32(size_bytes@) == le_u32(d.subrange(name_len(d) as int + 1, name_len(d) as int + 5)));
            }
            if bytes.len() - start < len as usize {
                proof {
                    assert(d.len() - (name_len(d) as int + 5) < le_u32(d.subrange(name_len(d) as int + 1, name_len(d) as int + 5)));
                    assert(entries_of(d) == Err::<Seq<(Seq<u8>, Seq<u8>)>, PaqError>(PaqError::ShortAsset));
                }
                return Err(PaqError::ShortAsset);
            }
            let end = start + len as usize;
            let name = copy_range(bytes, pos, zero);
            let data = copy_range(bytes, start, end);
            let ghost before = out@.map_values(|e: PaqEntry| e@);
            out.push(PaqEntry { name, data });
            proof {
                assert(d.skip(name_len(d) as int + 5 + len) =~= bytes@.skip(end as int));
                assert(name@ =~= d.take(name_len(d) as int));
                assert(data@ =~= d.subrange(name_len(d) as int + 5, name_len(d) as int + 5 + len));
                assert(out@.map_values(|e: PaqEntry| e@) =~= before.push((name@, data@)));
                match entries_of(bytes@.skip(end as int)) {
                    Ok(rest) => {
                        assert(before.push((name@, data@)) + rest =~= before + (seq![(name@, data@)] + rest));
                    },
                    Err(e) => {},
                }
            }
            pos = end;
        }
        proof {
            assert(bytes@.skip(pos as int).len() == 0);
            assert(out@.map_values(|e: PaqEntry| e@) + seq![] =~= out@.map_values(|e: PaqEntry| e@));
        }
        Ok(out)
    }
}

} // verus!
