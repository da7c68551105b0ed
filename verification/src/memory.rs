use vstd::prelude::*;

verus! {

/// Why a memory snapshot cannot be loaded.
#[derive(Debug, Clone, PartialEq, Eq)]
pub enum MemError {
    /// The snapshot file (named here) holds more than the 256 bytes of a memory page.
    InvalidDataSize(String),
}

/// The size of a memory page: program memory and data memory each hold this many bytes.
pub const PAGE_SIZE: usize = 256;

/// Loads the contents of the snapshot file `file` into `target`.
///
/// A snapshot larger than a page is refused. Otherwise as many bytes as both the snapshot and
/// `target` hold are copied to the start of `target`, the rest of `target` is left as it was,
/// and the number of bytes copied is returned.
pub fn mem_loader(file: &str, contents: &[u8], target: &mut [u8]) -> (r: Result<usize, MemError>)
    ensures
        contents@.len() > PAGE_SIZE ==> (r matches Err(MemError::InvalidDataSize(name)) && name@ == file@),
        contents@.len() > PAGE_SIZE ==> final(target)@ == old(target)@,
        contents@.len() <= PAGE_SIZE ==> (r matches Ok(n) && {
            &&& n == if contents@.len() < old(target)@.len() { contents@.len() } else { old(target)@.len() }
            &&& final(target)@ == contents@.take(n as int) + old(target)@.skip(n as int)
        }),
{
    if contents.len() > PAGE_SIZE {
        return Err(MemError::InvalidDataSize(file.to_owned()));
    }
    let n = if contents.len() < target.len() {
        contents.len()
    } else {
        target.len()
    };
    let mut i: usize = 0;
    while i < n
        invariant
            i <= n,
            n <= contents@.len(),
            n <= old(target)@.len(),
            target@.len() == old(target)@.len(),
            target@ =~= contents@.take(i as int) + old(target)@.skip(i as int),
        decreases n - i,
    {
        target[i] = contents[i];
        i = i + 1;
        assert(target@ =~= contents@.take(i as int) + old(target)@.skip(i as int));
    }
    Ok(n)
}

} // verus!
