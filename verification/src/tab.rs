//! The application package: per-architecture binaries and the metadata
//! that says which boards and kernel versions it suits.  Unpacking the
//! archive and reading the metadata text happen outside the library; what
//! arrives here are plain names, bytes and parsed fields.

use vstd::prelude::*;

use crate::errors::TockloaderError;
use crate::planner::get_valid_pages;
use crate::planner::page_selected;
use crate::tbf::TbfFooterV2Credentials;
use crate::tbf::TbfHeader;
use crate::text::all_dec;
use crate::text::dec_prefix_val;
use crate::text::parse_dec_u32;
use crate::text::str_eq;

verus! {

/// A package archive named by its path; its contents are read elsewhere.
pub struct TabFile {
    pub path: String,
}

impl TabFile {
    pub fn new(path: String) -> (r: TabFile)
        ensures
            r.path == path,
    {
        TabFile { path }
    }
}

/// The kernel version a package asks for.
#[derive(Clone, Copy, Debug, PartialEq, Eq, Structural)]
pub struct TockKernelVersion {
    pub major: u32,
    pub minor: u32,
}

/// Index of the first dot of a character run, or its length when none.
pub open spec fn spec_first_dot(s: Seq<char>) -> int
    decreases s.len(),
{
    if s.len() == 0 {
        0
    } else if s[0] == '.' {
        0
    } else {
        1 + spec_first_dot(s.skip(1))
    }
}

/// Whether a version string is well formed: digits, one dot, digits, with
/// both parts fitting in 32 bits.
pub open spec fn spec_version_ok(s: Seq<char>) -> bool {
    let i = spec_first_dot(s);
    &&& i < s.len()
    &&& i > 0
    &&& all_dec(s.take(i))
    &&& dec_prefix_val(s.take(i), i) < 0x1_0000_0000
    &&& s.skip(i + 1).len() > 0
    &&& all_dec(s.skip(i + 1))
    &&& dec_prefix_val(s.skip(i + 1), s.len() - i - 1) < 0x1_0000_0000
}

proof fn lemma_first_dot_bounds(s: Seq<char>)
    ensures
        0 <= spec_first_dot(s) <= s.len(),
        spec_first_dot(s) < s.len() ==> s[spec_first_dot(s)] == '.',
        forall|j: int| 0 <= j < spec_first_dot(s) ==> s[j] != '.',
    decreases s.len(),
{
    if s.len() > 0 && s[0] != '.' {
        lemma_first_dot_bounds(s.skip(1));
        assert(forall|j: int| 1 <= j < spec_first_dot(s) ==> s[j] == s.skip(1)[j - 1]);
    }
}

/// Parse a version written as `major.minor`, both parts decimal.
pub fn parse_kernel_version(s: &str) -> (r: Option<TockKernelVersion>)
    ensures
        r is Some <==> spec_version_ok(s@),
        r is Some ==> ({
            let i = spec_first_dot(s@);
            &&& r->0.major == dec_prefix_val(s@.take(i), i)
            &&& r->0.minor == dec_prefix_val(s@.skip(i + 1), s@.len() - i - 1)
        }),
{
    let n = s.unicode_len();
    let mut dot: usize = 0;
    proof {
        lemma_first_dot_bounds(s@);
        assert(s@.skip(0) =~= s@);
    }
    while dot < n && s.get_char(dot) != '.'
        invariant
            dot <= n,
            n == s@.len(),
            spec_first_dot(s@) == dot + spec_first_dot(s@.skip(dot as int)),
            spec_first_dot(s@.skip(dot as int)) <= n - dot,
        decreases n - dot,
    {
        proof {
            assert(s@.skip(dot as int)[0] == s@[dot as int]);
            assert(s@.skip(dot as int).skip(1) =~= s@.skip(dot + 1));
            lemma_first_dot_bounds(s@.skip(dot + 1));
        }
        dot += 1;
    }
    proof {
        if dot < n {
            assert(s@.skip(dot as int)[0] == s@[dot as int]);
        } else {
            assert(s@.skip(dot as int) =~= Seq::<char>::empty());
        }
        assert(spec_first_dot(s@) == dot);
    }
    if dot == 0 || dot >= n {
        return None;
    }
    let major_str = s.substring_char(0, dot);
    let minor_str = s.substring_char(dot + 1, n);
    proof {
        assert(major_str@ =~= s@.take(dot as int));
        assert(minor_str@ =~= s@.skip(dot + 1));
    }
    let major = match parse_dec_u32(major_str) {
        Some(v) => v,
        None => {
            return None;
        },
    };
    let minor = match parse_dec_u32(minor_str) {
        Some(v) => v,
        None => {
            return None;
        },
    };
    Some(TockKernelVersion { major, minor })
}

/// The metadata of a package: its name, the kernel version it wants, when
/// it was built, and the boards it is restricted to, if any.
pub struct Metadata {
    pub tab_version: i64,
    pub name: String,
    pub minimum_tock_kernel_version: TockKernelVersion,
    pub build_date: String,
    pub only_for_boards: Option<Vec<String>>,
}

/// One application binary of a package.
pub struct TbfFile {
    pub filename: String,
    pub data: Vec<u8>,
}

/// An opened package: its metadata and its per-architecture binaries.
pub struct Tab {
    pub metadata: Metadata,
    pub tbf_files: Vec<TbfFile>,
}

/// Whether a package may go on the named board: its metadata either names
/// no boards at all, or names this one.
pub open spec fn spec_compatible_with_board(m: Metadata, board: Seq<char>) -> bool {
    match m.only_for_boards {
        None => true,
        Some(boards) => exists|i: int| 0 <= i < boards@.len() && boards@[i]@ == board,
    }
}

/// Whether a filename starts with an architecture name.
pub open spec fn spec_name_matches(name: Seq<char>, arch: Seq<char>) -> bool {
    name.len() >= arch.len() && name.take(arch.len() as int) == arch
}

/// Index of the first binary whose filename starts with the architecture
/// name, if any.
pub open spec fn spec_first_binary(files: Seq<TbfFile>, arch: Seq<char>) -> Option<int>
    decreases files.len(),
{
    if files.len() == 0 {
        None
    } else if spec_name_matches(files[0].filename@, arch) {
        Some(0)
    } else {
        match spec_first_binary(files.skip(1), arch) {
            None => None,
            Some(i) => Some(i + 1),
        }
    }
}

impl Tab {
    pub fn new(metadata: Metadata, tbf_files: Vec<TbfFile>) -> (r: Tab)
        ensures
            r.metadata == metadata,
            r.tbf_files == tbf_files,
    {
        Tab { metadata, tbf_files }
    }

    /// The kernel version the board reports is unreliable on at least one
    /// supported board, so this check is advisory and always passes;
    /// callers may warn but must not block an install on it.
    pub fn is_compatible_with_kernel_verison(&self, _kernel_version: u32) -> (r: bool)
        ensures
            r,
    {
        true
    }

    /// Whether the package suits the attached board: either it names no
    /// boards at all, or the board's name is among the named ones.
    pub fn is_compatible_with_board(&self, board: &String) -> (r: bool)
        ensures
            r == spec_compatible_with_board(self.metadata, board@),
    {
        match &self.metadata.only_for_boards {
            None => true,
            Some(boards) => {
                let mut i: usize = 0;
                while i < boards.len()
                    invariant
                        i <= boards@.len(),
                        self.metadata.only_for_boards == Some(*boards),
                        forall|j: int| 0 <= j < i ==> boards@[j]@ != board@,
                    decreases boards@.len() - i,
                {
                    if str_eq(boards[i].as_str(), board.as_str()) {
                        proof {
                            let bs = self.metadata.only_for_boards->0;
                            assert(bs == *boards);
                            assert(bs@[i as int]@ == board@);
                        }
                        return true;
                    }
                    i += 1;
                }
                false
            },
        }
    }

    /// The binary built for an architecture: the first file whose name
    /// starts with the architecture's name.
    pub fn extract_binary(&self, arch: &str) -> (r: Result<Vec<u8>, TockloaderError>)
        ensures
            r is Ok <==> spec_first_binary(self.tbf_files@, arch@) is Some,
            r is Ok ==> r->Ok_0@ == self.tbf_files@[spec_first_binary(
                self.tbf_files@,
                arch@,
            )->0].data@,
            r is Err ==> r->Err_0 is NoBinaryError && r->Err_0->NoBinaryError_0@ == arch@,
    {
        let files = &self.tbf_files;
        let arch_len = arch.unicode_len();
        let ghost fseq = files@;
        let mut i: usize = 0;
        proof {
            assert(fseq.skip(0) =~= fseq);
        }
        while i < files.len()
            invariant
                i <= fseq.len(),
                fseq == files@,
                fseq == self.tbf_files@,
                arch_len == arch@.len(),
                (match spec_first_binary(fseq.skip(i as int), arch@) {
                    None => spec_first_binary(fseq, arch@) is None,
                    Some(k) => spec_first_binary(fseq, arch@) == Some(k + i),
                }),
            decreases fseq.len() - i,
        {
            let name = &files[i].filename;
            let name_len = name.as_str().unicode_len();
            let matches = if name_len >= arch_len {
                let head = name.as_str().substring_char(0, arch_len);
                str_eq(head, arch)
            } else {
                false
            };
            proof {
                assert(fseq.skip(i as int)[0] == fseq[i as int]);
                if name_len >= arch_len {
                    assert(name@.take(arch_len as int) =~= name@.subrange(0, arch_len as int));
                }
                assert(matches == spec_name_matches(fseq[i as int].filename@, arch@));
                assert(fseq.skip(i as int).skip(1) =~= fseq.skip(i + 1));
            }
            if matches {
                proof {
                    assert(fseq == self.tbf_files@);
                    assert(spec_first_binary(fseq.skip(i as int), arch@) == Some(0int));
                    assert(spec_first_binary(fseq, arch@) == Some(i as int));
                    assert(spec_first_binary(self.tbf_files@, arch@) == Some(i as int));
                }
                let mut out: Vec<u8> = Vec::new();
                let data = &files[i].data;
                let mut k: usize = 0;
                while k < data.len()
                    invariant
                        k <= data@.len(),
                        out@ == data@.take(k as int),
                        data == &files[i as int].data,
                        i < files@.len(),
                    decreases data@.len() - k,
                {
                    out.push(data[k]);
                    proof {
                        assert(data@.take(k + 1) =~= data@.take(k as int).push(data@[k as int]));
                    }
                    k += 1;
                }
                proof {
                    assert(data@.take(data@.len() as int) =~= data@);
                }
                return Ok(out);
            }
            i += 1;
        }
        proof {
            assert(fseq.skip(fseq.len() as int) =~= Seq::<TbfFile>::empty());
            assert(spec_first_binary(self.tbf_files@, arch@) is None);
        }
        let mut arch_name = String::new();
        arch_name.append(arch);
        Err(TockloaderError::NoBinaryError(arch_name))
    }
}

/// One application image taken out of a package, with what the planner
/// needs to place it.
pub struct TabTbf {
    pub tbfh: TbfHeader,
    pub app_binary: Vec<u8>,
    pub tbff: TbfFooterV2Credentials,
    pub size: usize,
    pub padding: Option<u64>,
}

impl TabTbf {
    pub fn new(tbfh: TbfHeader, app_binary: Vec<u8>, tbff: TbfFooterV2Credentials, size: usize) -> (r:
        TabTbf)
        ensures
            r.tbfh == tbfh,
            r.app_binary == app_binary,
            r.tbff == tbff,
            r.size == size,
            r.padding is None,
    {
        TabTbf { tbfh, app_binary, tbff, size, padding: None }
    }

    pub fn get_size(&self) -> (r: usize)
        ensures
            r == self.size,
    {
        self.size
    }

    /// A copy of the application binary.
    pub fn get_app_binary(&self) -> (r: Vec<u8>)
        ensures
            r@ == self.app_binary@,
    {
        let n = self.app_binary.len();
        crate::tbf::subvec(&self.app_binary, 0, n)
    }

    pub fn set_padding(&mut self, padding: u64)
        ensures
            final(self).padding == Some(padding),
            final(self).tbfh == old(self).tbfh,
            final(self).app_binary == old(self).app_binary,
            final(self).tbff == old(self).tbff,
            final(self).size == old(self).size,
    {
        self.padding = Some(padding);
    }

    /// Indices of the pages of the first `binary_len` bytes that must be
    /// written, as the flash planner selects them.
    pub fn get_valid_pages(self, binary_len: usize, binary: Vec<u8>, page_size: usize) -> (r: Vec<
        u8,
    >)
        requires
            page_size > 0,
            binary_len <= binary@.len(),
            binary_len < 256 * page_size,
        ensures
            ({
                let image = binary@.take(binary_len as int);
                let n = binary_len as int / page_size as int;
                &&& forall|a: int, b: int| 0 <= a < b < r@.len() ==> r@[a] < r@[b]
                &&& forall|k: int|
                    0 <= k < r@.len() ==> page_selected(image, page_size as int, n, r@[k] as int)
                &&& forall|i: int|
                    page_selected(image, page_size as int, n, i) ==> r@.contains(i as u8)
            }),
    {
        let prefix = crate::tbf::subvec(&binary, 0, binary_len);
        proof {
            assert(prefix@ =~= binary@.take(binary_len as int));
        }
        get_valid_pages(&prefix, page_size)
    }
}


} // verus!
