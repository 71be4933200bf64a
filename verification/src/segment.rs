//! The segment-structured executable container.
//!
//! The container carries a program table; only entries of the loadable type
//! are staged.  Parsing the table is the container parser's work; validating
//! and staging the loadable entries is this crate's, and is verified.
use vstd::prelude::*;

use crate::LoaderError;

verus! {

/// The entry type of a loadable segment in the program table.
pub const SEGMENT_TYPE_LOAD: u32 = 1;

/// The program table the container parser recovers from the image bytes, as
/// plain values (file offset, virtual address, file size, memory size,
/// entry type); nothing where the container is malformed or has no table.
pub uninterp spec fn spec_program_table(image: Seq<u8>) -> Option<Seq<(u64, u64, u64, u64, u32)>>;

/// Relies on `elf::ElfBytes::minimal_parse`, `elf::ElfBytes::segments` and
/// the segment table's iterator: the recovered program table is a function
/// of the image bytes alone; a parse failure or a missing table yields
/// nothing.
#[verifier::external_body]
fn read_program_table(image: &[u8]) -> (r: Option<Vec<(u64, u64, u64, u64, u32)>>)
    ensures
        r matches Some(v) ==> spec_program_table(image@) == Some(v@),
        r is None ==> spec_program_table(image@) is None,
{
    let file = match elf::ElfBytes::<elf::endian::AnyEndian>::minimal_parse(image) {
        Ok(f) => f,
        Err(_) => return None,
    };
    let table = file.segments()?;
    Some(table.iter().map(|p| (p.p_offset, p.p_vaddr, p.p_filesz, p.p_memsz, p.p_type)).collect())
}

/// One loadable segment: `file_size` bytes at `file_offset` are copied to
/// `virtual_address`, and the remaining `memory_size - file_size` bytes are
/// zero-initialized, never copied from source bytes.
#[derive(Clone, Copy, PartialEq, Eq, Structural, Debug)]
pub struct Segment {
    /// Offset of the segment's bytes inside the container.
    pub file_offset: usize,
    /// Address the segment is staged at.
    pub virtual_address: usize,
    /// Number of bytes the container supplies.
    pub file_size: usize,
    /// Number of bytes the segment occupies in memory.
    pub memory_size: usize,
}

impl Segment {
    /// A segment never occupies less memory than its file bytes.
    pub open spec fn wf(self) -> bool {
        self.file_size <= self.memory_size
    }

    /// A segment the machine can stage out of an image of `image_len`
    /// bytes: well formed, file bytes inside the image, page-aligned end
    /// addressable.
    pub open spec fn loadable(self, image_len: int) -> bool {
        &&& self.wf()
        &&& self.file_offset + self.file_size <= image_len
        &&& self.virtual_address + self.memory_size + 0xfff <= usize::MAX
    }
}

/// Whether one table entry of the loadable type can be staged.
pub open spec fn spec_entry_ok(e: (u64, u64, u64, u64, u32), image_len: int) -> bool {
    &&& e.2 <= e.3
    &&& e.0 + e.2 <= image_len
    &&& e.1 + e.3 + 0xfff <= usize::MAX
}

/// The segment a table entry describes.
pub open spec fn spec_segment_of(e: (u64, u64, u64, u64, u32)) -> Segment {
    Segment {
        file_offset: e.0 as usize,
        virtual_address: e.1 as usize,
        file_size: e.2 as usize,
        memory_size: e.3 as usize,
    }
}

/// The loadable entries of a program table, in file order, as segments.
pub open spec fn spec_load_segments(t: Seq<(u64, u64, u64, u64, u32)>) -> Seq<Segment>
    decreases t.len(),
{
    if t.len() == 0 {
        Seq::empty()
    } else {
        let init = spec_load_segments(t.drop_last());
        if t.last().4 == SEGMENT_TYPE_LOAD {
            init.push(spec_segment_of(t.last()))
        } else {
            init
        }
    }
}

/// Whether every loadable entry of the table can be staged.
pub open spec fn spec_entries_ok(t: Seq<(u64, u64, u64, u64, u32)>, image_len: int) -> bool {
    forall|k: int|
        0 <= k < t.len() && (#[trigger] t[k]).4 == SEGMENT_TYPE_LOAD ==> spec_entry_ok(
            t[k],
            image_len,
        )
}

/// Parses the container and keeps the loadable segments, in file order.  A
/// malformed container, or a loadable entry that cannot be staged, rejects
/// the whole image before anything is staged.
pub fn parse_load_segments(image: &[u8]) -> (r: Result<Vec<Segment>, LoaderError>)
    ensures
        r is Ok <==> (spec_program_table(image@) matches Some(t) && spec_entries_ok(
            t,
            image@.len() as int,
        )),
        r matches Ok(v) ==> ({
            &&& spec_program_table(image@) matches Some(t) && v@ == spec_load_segments(t)
            &&& forall|k: int|
                0 <= k < v@.len() ==> (#[trigger] v@[k]).loadable(image@.len() as int)
        }),
        r matches Err(e) ==> e == LoaderError::MalformedImage,
{
    let table = match read_program_table(image) {
        Some(t) => t,
        None => {
            return Err(LoaderError::MalformedImage);
        },
    };
    let n: usize = image.len();
    let max_addr: u64 = (usize::MAX - 0xfff) as u64;
    let mut segs: Vec<Segment> = Vec::new();
    let mut i: usize = 0;
    while i < table.len()
        invariant
            spec_program_table(image@) == Some(table@),
            n == image@.len(),
            max_addr == usize::MAX - 0xfff,
            i <= table@.len(),
            forall|k: int|
                0 <= k < i && (#[trigger] table@[k]).4 == SEGMENT_TYPE_LOAD ==> spec_entry_ok(
                    table@[k],
                    n as int,
                ),
            segs@ == spec_load_segments(table@.take(i as int)),
            forall|k: int| 0 <= k < segs@.len() ==> (#[trigger] segs@[k]).loadable(n as int),
        decreases table@.len() - i,
    {
        let e = table[i];
        proof {
            assert(table@.take(i as int + 1).drop_last() =~= table@.take(i as int));
            assert(table@.take(i as int + 1).last() == table@[i as int]);
        }
        if e.4 == SEGMENT_TYPE_LOAD {
            if e.2 > e.3 {
                return Err(LoaderError::MalformedImage);
            }
            if e.0 > n as u64 || e.2 > n as u64 - e.0 {
                return Err(LoaderError::MalformedImage);
            }
            if e.1 > max_addr || e.3 > max_addr - e.1 {
                return Err(LoaderError::MalformedImage);
            }
            let seg = Segment {
                file_offset: e.0 as usize,
                virtual_address: e.1 as usize,
                file_size: e.2 as usize,
                memory_size: e.3 as usize,
            };
            segs.push(seg);
        }
        i = i + 1;
    }
    proof {
        assert(table@.take(table@.len() as int) =~= table@);
    }
    Ok(segs)
}

} // verus!
