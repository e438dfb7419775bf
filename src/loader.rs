use vstd::prelude::*;

use crate::ops::{entry_name, OpKind};

verus! {

/// Why a module could not be made ready for a run.
#[derive(Clone, Copy, Debug, PartialEq, Eq, Structural)]
pub enum LoadError {
    /// No file exists at any of the candidate paths.
    NotFound,
    /// A file exists but could not be read.
    ReadFailure,
    /// The bytes are not a well-formed module.
    InvalidModule,
    /// The module lacks one of the expected entry points.
    UnsupportedInterface,
}

/// Picks the first candidate path that exists. `exists[i]` says whether the
/// i-th candidate is present on disk.
pub fn first_existing(exists: &Vec<bool>) -> (r: Result<usize, LoadError>)
    ensures
        match r {
            Ok(i) => i < exists@.len() && exists@[i as int] && forall|j: int|
                0 <= j < i ==> !exists@[j],
            Err(e) => e == LoadError::NotFound && forall|j: int|
                0 <= j < exists@.len() ==> !exists@[j],
        },
{
    let mut i: usize = 0;
    while i < exists.len()
        invariant
            i <= exists@.len(),
            forall|j: int| 0 <= j < i ==> !exists@[j],
        decreases exists@.len() - i,
    {
        if exists[i] {
            return Ok(i);
        }
        i = i + 1;
    }
    Err(LoadError::NotFound)
}

/// The eight bytes every module starts with: the magic `\0asm` and format
/// version one.
pub open spec fn module_header() -> Seq<u8> {
    seq![0x00u8, 0x61, 0x73, 0x6d, 0x01, 0x00, 0x00, 0x00]
}

/// The bytes start with the module header.
pub open spec fn has_header(m: Seq<u8>) -> bool {
    m.len() >= 8 && m.subrange(0, 8) == module_header()
}

/// At offset `p`, past the header, stands an export entry for `name`: its
/// length byte, its bytes, and the function export tag `0`.
pub open spec fn export_at(m: Seq<u8>, name: Seq<u8>, p: int) -> bool {
    &&& 8 <= p
    &&& p + name.len() + 2 <= m.len()
    &&& m[p] as int == name.len()
    &&& m.subrange(p + 1, p + 1 + name.len()) == name
    &&& m[p + 1 + name.len()] == 0u8
}

/// The module exports a function under `name`.
pub open spec fn exports_name(m: Seq<u8>, name: Seq<u8>) -> bool {
    exists|p: int| export_at(m, name, p)
}

/// The module exports all four entry points of a token contract.
pub open spec fn exports_interface(m: Seq<u8>) -> bool {
    &&& exports_name(m, entry_name(OpKind::Initialize))
    &&& exports_name(m, entry_name(OpKind::Mint))
    &&& exports_name(m, entry_name(OpKind::Transfer))
    &&& exports_name(m, entry_name(OpKind::Balance))
}

/// What checking a module's bytes yields.
pub open spec fn check_result(m: Seq<u8>) -> Result<(), LoadError> {
    if !has_header(m) {
        Err(LoadError::InvalidModule)
    } else if !exports_interface(m) {
        Err(LoadError::UnsupportedInterface)
    } else {
        Ok(())
    }
}

fn has_header_exec(m: &Vec<u8>) -> (r: bool)
    ensures
        r == has_header(m@),
{
    if m.len() < 8 {
        return false;
    }
    let h: Vec<u8> = vec![0x00u8, 0x61, 0x73, 0x6d, 0x01, 0x00, 0x00, 0x00];
    assert(h@ =~= module_header());
    let mut i: usize = 0;
    while i < 8
        invariant
            m@.len() >= 8,
            h@ == module_header(),
            i <= 8,
            forall|j: int| 0 <= j < i ==> m@[j] == h@[j],
        decreases 8 - i,
    {
        if m[i] != h[i] {
            assert(m@.subrange(0, 8)[i as int] != module_header()[i as int]);
            return false;
        }
        i = i + 1;
    }
    assert(m@.subrange(0, 8) =~= module_header());
    true
}

fn export_at_exec(m: &Vec<u8>, name: &Vec<u8>, p: usize) -> (r: bool)
    requires
        8 <= p,
        p + name@.len() + 2 <= m@.len(),
    ensures
        r == export_at(m@, name@, p as int),
{
    let n = name.len();
    let ml = m.len();
    if m[p] as usize != n {
        return false;
    }
    let mut i: usize = 0;
    while i < n
        invariant
            n == name@.len(),
            ml == m@.len(),
            8 <= p,
            p + n + 2 <= ml,
            i <= n,
            forall|j: int| 0 <= j < i ==> m@[p + 1 + j] == name@[j],
        decreases n - i,
    {
        if m[p + 1 + i] != name[i] {
            assert(m@.subrange(p + 1, p + 1 + n)[i as int] != name@[i as int]);
            return false;
        }
        i = i + 1;
    }
    assert(m@.subrange(p + 1, p + 1 + n) =~= name@);
    m[p + 1 + n] == 0u8
}

/// Whether the module exports a function under `name`.
pub fn exports(m: &Vec<u8>, name: &Vec<u8>) -> (r: bool)
    ensures
        r == exports_name(m@, name@),
{
    let n = name.len();
    if m.len() < 10 || n > m.len() - 10 {
        assert forall|p: int| !export_at(m@, name@, p) by {}
        return false;
    }
    let ml = m.len();
    let last = ml - n - 2;
    let mut p: usize = 8;
    while p <= last
        invariant
            n == name@.len(),
            ml == m@.len(),
            last + n + 2 == ml,
            8 <= p,
            forall|q: int| 8 <= q < p ==> !export_at(m@, name@, q),
        decreases last + 1 - p,
    {
        if export_at_exec(m, name, p) {
            return true;
        }
        p = p + 1;
    }
    assert forall|q: int| !export_at(m@, name@, q) by {
        if 8 <= q < p {
        }
    }
    false
}

/// Checks that the bytes form a loadable module with the token interface.
pub fn check_module(m: &Vec<u8>) -> (r: Result<(), LoadError>)
    ensures
        r == check_result(m@),
{
    if !has_header_exec(m) {
        return Err(LoadError::InvalidModule);
    }
    let i = exports(m, &OpKind::Initialize.entry_name());
    let a = exports(m, &OpKind::Mint.entry_name());
    let t = exports(m, &OpKind::Transfer.entry_name());
    let b = exports(m, &OpKind::Balance.entry_name());
    if i && a && t && b {
        Ok(())
    } else {
        Err(LoadError::UnsupportedInterface)
    }
}

} // verus!
