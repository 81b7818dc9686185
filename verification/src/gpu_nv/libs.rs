//! Where the host has NVIDIA's user-mode libraries, and which of them the guest needs.

use vstd::prelude::*;

use crate::paths::{parent, parent_of};
use crate::text::{chars_of, trim, trim_bounds};

verus! {

/// Directories that may hold the libraries, in the order in which they are tried.
pub open spec fn candidates() -> Seq<Seq<char>> {
    seq![
        "/usr/lib/x86_64-linux-gnu"@,
        "/usr/lib64"@,
        "/usr/lib/aarch64-linux-gnu"@,
        "/usr/lib"@,
        "/usr/local/lib"@,
    ]
}

/// What a list of texts says.
pub open spec fn texts(list: Seq<&'static str>) -> Seq<Seq<char>> {
    list.map_values(|s: &'static str| s@)
}

/// Directories that may hold the libraries, in the order in which they are tried.
pub fn candidate_dirs() -> (r: Vec<&'static str>)
    ensures
        texts(r@) == candidates(),
{
    let dirs = vec![
        "/usr/lib/x86_64-linux-gnu",
        "/usr/lib64",
        "/usr/lib/aarch64-linux-gnu",
        "/usr/lib",
        "/usr/local/lib",
    ];
    assert(texts(dirs@) =~= candidates());
    dirs
}

/// The first candidate in which libcuda.so.1 was found.
pub open spec fn first_present(present: Seq<bool>, from: nat) -> Option<Seq<char>>
    decreases candidates().len() - from,
{
    if from >= candidates().len() {
        None
    } else if present[from as int] {
        Some(candidates()[from as int])
    } else {
        first_present(present, from + 1)
    }
}

/// The directory of the libraries: what nvidia-container-cli named, if it exists, or else the
/// first candidate in which libcuda.so.1 was found.
pub fn find_nvidia_libs(named: Option<String>, present: &Vec<bool>) -> (r: Result<String, String>)
    requires
        present.len() == candidates().len(),
    ensures
        match named {
            Some(dir) => r matches Ok(found) && found@ == dir@,
            None => match r {
                Ok(found) => first_present(present@, 0) == Some(found@),
                Err(e) => {
                    &&& first_present(present@, 0) is None
                    &&& e@ == "Cannot find NVIDIA libraries on host. Install the NVIDIA driver or ensure nvidia-container-cli is in PATH."@
                },
            },
        },
{
    if let Some(dir) = named {
        return Ok(dir);
    }
    let dirs = candidate_dirs();
    let mut i: usize = 0;
    while i < dirs.len()
        invariant
            i <= dirs@.len() == candidates().len() == present@.len(),
            texts(dirs@) == candidates(),
            named is None,
            first_present(present@, 0) == first_present(present@, i as nat),
        decreases dirs.len() - i,
    {
        if present[i] {
            assert(texts(dirs@)[i as int] == dirs@[i as int]@);
            return Ok(dirs[i].to_owned());
        }
        i += 1;
    }
    Err(
        "Cannot find NVIDIA libraries on host. Install the NVIDIA driver or ensure nvidia-container-cli is in PATH.".to_owned(),
    )
}

/// The first line of a text, without the end of the line.
pub open spec fn first_line(text: Seq<char>) -> Seq<char>
    decreases text.len(),
{
    if text.len() == 0 || text[0] == '\n' {
        Seq::empty()
    } else {
        seq![text[0]] + first_line(text.drop_first())
    }
}

/// The file that nvidia-container-cli names first: the first line of its output, without white
/// space at its ends.
pub fn first_library(stdout: &str) -> (r: Option<String>)
    ensures
        match r {
            Some(path) => stdout@.len() > 0 && path@ == trim(first_line(stdout@)),
            None => stdout@.len() == 0,
        },
{
    let chars = chars_of(stdout);
    if chars.len() == 0 {
        return None;
    }
    let mut n: usize = 0;
    assert(chars@.skip(0) =~= chars@);
    assert(chars@.take(0) + first_line(chars@) =~= first_line(chars@));
    while n < chars.len() && chars[n] != '\n'
        invariant
            n <= chars@.len(),
            first_line(chars@) == chars@.take(n as int) + first_line(chars@.skip(n as int)),
        decreases chars.len() - n,
    {
        proof {
            let rest = chars@.skip(n as int);
            assert(rest.drop_first() =~= chars@.skip(n + 1));
            assert(chars@.take(n + 1) =~= chars@.take(n as int) + seq![rest[0]]);
            assert(first_line(chars@) =~= chars@.take(n + 1) + first_line(chars@.skip(n + 1)));
        }
        n += 1;
    }
    let line = &chars.as_slice()[0..n];
    assert(line@ =~= first_line(chars@));
    let (from, to) = trim_bounds(line);
    let path = stdout.substring_char(from, to);
    assert(path@ =~= line@.subrange(from as int, to as int));
    Some(path.to_owned())
}

/// The directory of the file that nvidia-container-cli names first, or nothing where its output
/// names none.
pub fn libs_dir_of(stdout: &str) -> (r: Option<String>)
    ensures
        match r {
            Some(dir) => stdout@.len() > 0 && parent_of(trim(first_line(stdout@))) == Some(dir@),
            None => stdout@.len() == 0 || parent_of(trim(first_line(stdout@))) is None,
        },
        trim(first_line(stdout@)).len() == 0 ==> r is None,
{
    match first_library(stdout) {
        None => None,
        Some(library) => parent(library.as_str()),
    }
}

/// Files that the guest needs for compute, graphics and video.
pub open spec fn required() -> Seq<Seq<char>> {
    seq![
        "libcuda.so.1"@,
        "libcuda.so"@,
        "libcudart.so"@,
        "libnvidia-ml.so.1"@,
        "libnvidia-ml.so"@,
        "libnvidia-encode.so.1"@,
        "libnvidia-encode.so"@,
        "libnvidia-decode.so.1"@,
        "libnvidia-decode.so"@,
        "libnvidia-opticalflow.so.1"@,
        "libnvidia-opencl.so.1"@,
        "libnvidia-opencl.so"@,
        "libOpenCL.so.1"@,
        "libnvidia-glcore.so"@,
        "libnvidia-eglcore.so"@,
        "libnvidia-glsi.so"@,
        "libnvidia-tls.so"@,
        "libnvidia-allocator.so.1"@,
        "libvdpau_nvidia.so"@,
        "nvidia_icd.json"@,
        "nvidia_layers.json"@,
    ]
}

/// Files that the guest needs for compute, graphics and video.
pub fn required_nvidia_libs() -> (r: Vec<&'static str>)
    ensures
        texts(r@) == required(),
{
    let names = vec![
        "libcuda.so.1",
        "libcuda.so",
        "libcudart.so",
        "libnvidia-ml.so.1",
        "libnvidia-ml.so",
        "libnvidia-encode.so.1",
        "libnvidia-encode.so",
        "libnvidia-decode.so.1",
        "libnvidia-decode.so",
        "libnvidia-opticalflow.so.1",
        "libnvidia-opencl.so.1",
        "libnvidia-opencl.so",
        "libOpenCL.so.1",
        "libnvidia-glcore.so",
        "libnvidia-eglcore.so",
        "libnvidia-glsi.so",
        "libnvidia-tls.so",
        "libnvidia-allocator.so.1",
        "libvdpau_nvidia.so",
        "nvidia_icd.json",
        "nvidia_layers.json",
    ];
    assert(texts(names@) =~= required());
    names
}

/// The first line of a text is what is before its first end of line, or all of it.
pub proof fn first_line_ends_at_the_first_end(a: Seq<char>, b: Seq<char>)
    requires
        forall|i: int| 0 <= i < a.len() ==> #[trigger] a[i] != '\n',
    ensures
        first_line(a.push('\n') + b) == a,
        first_line(a) == a,
    decreases a.len(),
{
    let all = a.push('\n') + b;
    if a.len() == 0 {
        assert(all[0] == '\n');
        assert(a =~= Seq::empty());
    } else {
        let rest = a.drop_first();
        assert forall|i: int| 0 <= i < rest.len() implies #[trigger] rest[i] != '\n' by {
            assert(a[i + 1] != '\n');
        }
        first_line_ends_at_the_first_end(rest, b);
        assert(all[0] == a[0]);
        assert(all.drop_first() =~= rest.push('\n') + b);
        assert(seq![a[0]] + rest =~= a);
    }
}

/// The candidate that is taken holds the library, and none before it does; where none is taken,
/// none holds it.
pub proof fn first_candidate_counts(present: Seq<bool>, from: nat, i: int)
    requires
        present.len() == 5,
        from <= 5,
        from <= i < 5,
    ensures
        present[i] && (forall|j: int| from <= j < i ==> !#[trigger] present[j]) ==> first_present(
            present,
            from,
        ) == Some(candidates()[i]),
        (forall|j: int| from <= j < 5 ==> !#[trigger] present[j]) ==> first_present(present, from)
            is None,
        candidates().len() == 5,
    decreases 5 - from,
{
    if i > from {
        first_candidate_counts(present, from + 1, i);
    } else if from < 4 {
        first_candidate_counts(present, from + 1, 4);
    }
}

/// The candidates, and the files that the guest needs, by name and in order.
pub proof fn names_are_these()
    ensures
        candidates()[0] == "/usr/lib/x86_64-linux-gnu"@,
        candidates()[1] == "/usr/lib64"@,
        candidates()[2] == "/usr/lib/aarch64-linux-gnu"@,
        candidates()[3] == "/usr/lib"@,
        candidates()[4] == "/usr/local/lib"@,
        required().len() == 21,
        required()[0] == "libcuda.so.1"@,
        required()[1] == "libcuda.so"@,
        required()[2] == "libcudart.so"@,
        required()[3] == "libnvidia-ml.so.1"@,
        required()[4] == "libnvidia-ml.so"@,
        required()[5] == "libnvidia-encode.so.1"@,
        required()[6] == "libnvidia-encode.so"@,
        required()[7] == "libnvidia-decode.so.1"@,
        required()[8] == "libnvidia-decode.so"@,
        required()[9] == "libnvidia-opticalflow.so.1"@,
        required()[10] == "libnvidia-opencl.so.1"@,
        required()[11] == "libnvidia-opencl.so"@,
        required()[12] == "libOpenCL.so.1"@,
        required()[13] == "libnvidia-glcore.so"@,
        required()[14] == "libnvidia-eglcore.so"@,
        required()[15] == "libnvidia-glsi.so"@,
        required()[16] == "libnvidia-tls.so"@,
        required()[17] == "libnvidia-allocator.so.1"@,
        required()[18] == "libvdpau_nvidia.so"@,
        required()[19] == "nvidia_icd.json"@,
        required()[20] == "nvidia_layers.json"@,
{
}

/// A list of texts says each of them, in order.
pub proof fn texts_are_listed_in_order(list: Seq<&'static str>, i: int)
    requires
        0 <= i < list.len(),
    ensures
        texts(list).len() == list.len(),
        texts(list)[i] == list[i]@,
{
}

} // verus!
