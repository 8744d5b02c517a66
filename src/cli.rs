use crate::gdb::starts_with;
use crate::memory_ap::AccessPortError;
use crate::probe::DebugProbeError;
use vstd::prelude::*;
use vstd::string::StringSliceAdditionalSpecFns;
use vstd::utf8::encode_utf8;

verus! {

/// Relies on std::io::Error only to carry it: nothing here looks inside.
#[verifier::external_type_specification]
#[verifier::external_body]
pub struct ExIoError(std::io::Error);

/// Why flashing from the command line failed.
pub enum DownloadError {
    DebugProbe(DebugProbeError),
    AccessPort(AccessPortError),
    StdIO(std::io::Error),
    Quit,
}

impl From<DebugProbeError> for DownloadError {
    fn from(error: DebugProbeError) -> (r: DownloadError)
        ensures
            r == DownloadError::DebugProbe(error),
    {
        DownloadError::DebugProbe(error)
    }
}

impl vstd::std_specs::convert::FromSpecImpl<DebugProbeError> for DownloadError {
    open spec fn obeys_from_spec() -> bool {
        true
    }

    open spec fn from_spec(error: DebugProbeError) -> DownloadError {
        DownloadError::DebugProbe(error)
    }
}

impl From<AccessPortError> for DownloadError {
    fn from(error: AccessPortError) -> (r: DownloadError)
        ensures
            r == DownloadError::AccessPort(error),
    {
        DownloadError::AccessPort(error)
    }
}

impl vstd::std_specs::convert::FromSpecImpl<AccessPortError> for DownloadError {
    open spec fn obeys_from_spec() -> bool {
        true
    }

    open spec fn from_spec(error: AccessPortError) -> DownloadError {
        DownloadError::AccessPort(error)
    }
}

impl From<std::io::Error> for DownloadError {
    fn from(error: std::io::Error) -> (r: DownloadError)
        ensures
            r == DownloadError::StdIO(error),
    {
        DownloadError::StdIO(error)
    }
}

impl vstd::std_specs::convert::FromSpecImpl<std::io::Error> for DownloadError {
    open spec fn obeys_from_spec() -> bool {
        true
    }

    open spec fn from_spec(error: std::io::Error) -> DownloadError {
        DownloadError::StdIO(error)
    }
}

/// The bytes of an argument.
pub open spec fn arg_bytes(s: String) -> Seq<u8> {
    encode_utf8(s@)
}

pub open spec fn args_view(args: Seq<String>) -> Seq<Seq<u8>> {
    args.map_values(|s: String| arg_bytes(s))
}

/// The argument is `flag` (`exact`), or begins with it.
pub open spec fn flag_matches(a: Seq<u8>, flag: Seq<u8>, exact: bool) -> bool {
    if exact {
        a == flag
    } else {
        starts_with(a, flag)
    }
}

/// The first position at or after `from` that holds a match of `flag`.
pub open spec fn first_match(args: Seq<Seq<u8>>, flag: Seq<u8>, exact: bool, from: int) -> Option<int>
    decreases args.len() - from,
{
    if from < 0 || from >= args.len() {
        None
    } else if flag_matches(args[from], flag, exact) {
        Some(from)
    } else {
        first_match(args, flag, exact, from + 1)
    }
}

/// `args` without the first match of `flag`, and without the value that follows it
/// where the flag takes one.
pub open spec fn without_flag(args: Seq<Seq<u8>>, flag: Seq<u8>, exact: bool, with_value: bool) -> Seq<
    Seq<u8>,
> {
    match first_match(args, flag, exact, 0) {
        None => args,
        Some(i) => {
            let n: int = if with_value && i + 1 < args.len() {
                2
            } else {
                1
            };
            args.subrange(0, i) + args.subrange(i + n, args.len() as int)
        },
    }
}

/// The arguments that only the flashing tool understands, taken out one by one.
pub open spec fn tool_flags_removed(a: Seq<Seq<u8>>) -> Seq<Seq<u8>> {
    let a = without_flag(a, "--chip".spec_bytes(), true, true);
    let a = without_flag(a, "--chip=".spec_bytes(), false, false);
    let a = without_flag(a, "--chip-description-path".spec_bytes(), true, true);
    let a = without_flag(a, "--chip-description-path=".spec_bytes(), false, false);
    let a = without_flag(a, "-c".spec_bytes(), true, true);
    let a = without_flag(a, "-c=".spec_bytes(), false, false);
    let a = without_flag(a, "--nrf-recover".spec_bytes(), false, false);
    let a = without_flag(a, "--gdb".spec_bytes(), false, false);
    let a = without_flag(a, "--no-download".spec_bytes(), false, false);
    let a = without_flag(a, "--reset-halt".spec_bytes(), false, false);
    without_flag(a, "--gdb-connection-string".spec_bytes(), false, false)
}

/// The arguments handed to `cargo build`: the process arguments without the program
/// name, without `flash` where cargo put it second, and without the tool's own flags.
pub open spec fn cargo_args_spec(a: Seq<Seq<u8>>) -> Seq<Seq<u8>> {
    if a.len() == 0 {
        a
    } else if a.len() >= 2 && a[1] == "flash".spec_bytes() {
        tool_flags_removed(a.subrange(2, a.len() as int))
    } else {
        tool_flags_removed(a.subrange(1, a.len() as int))
    }
}

fn flag_matches_exec(a: &String, flag: &str, exact: bool) -> (r: bool)
    ensures
        r == flag_matches(arg_bytes(*a), flag.spec_bytes(), exact),
{
    let b = a.as_str().as_bytes();
    let f = flag.as_bytes();
    if exact && b.len() != f.len() {
        return false;
    }
    if b.len() < f.len() {
        return false;
    }
    let mut i: usize = 0;
    while i < f.len()
        invariant
            b@ == arg_bytes(*a),
            f@ == flag.spec_bytes(),
            !exact || b@.len() == f@.len(),
            b@.len() >= f@.len(),
            i <= f@.len(),
            forall|j: int| 0 <= j < i ==> b@[j] == f@[j],
        decreases f@.len() - i,
    {
        if b[i] != f[i] {
            assert(b@.subrange(0, f@.len() as int)[i as int] != f@[i as int]);
            assert(b@[i as int] != f@[i as int]);
            return false;
        }
        i = i + 1;
    }
    assert(b@.subrange(0, f@.len() as int) =~= f@);
    if exact {
        assert(b@ =~= f@);
    }
    true
}

fn remove_flag(args: &mut Vec<String>, flag: &str, exact: bool, with_value: bool)
    ensures
        args_view(final(args)@) == without_flag(args_view(old(args)@), flag.spec_bytes(), exact, with_value),
{
    let ghost v = args_view(args@);
    let mut i: usize = 0;
    while i < args.len()
        invariant
            v == args_view(args@),
            v == args_view(old(args)@),
            i <= args@.len(),
            first_match(v, flag.spec_bytes(), exact, 0) == first_match(v, flag.spec_bytes(), exact, i as int),
        decreases args@.len() - i,
    {
        if flag_matches_exec(&args[i], flag, exact) {
            assert(v[i as int] == arg_bytes(args@[i as int]));
            assert(first_match(v, flag.spec_bytes(), exact, i as int) == Some(i as int));
            let ghost before = args@;
            args.remove(i);
            assert(args_view(args@) =~= v.subrange(0, i as int) + v.subrange(i + 1, v.len() as int));
            if with_value && i < args.len() {
                let ghost mid = args@;
                args.remove(i);
                assert(args_view(args@) =~= v.subrange(0, i as int) + v.subrange(i + 2, v.len() as int));
            }
            return;
        }
        i = i + 1;
    }
}

/// Prepares the arguments for `cargo build` from the arguments this process got.
pub fn cargo_build_args(args: Vec<String>) -> (r: Vec<String>)
    ensures
        args_view(r@) == cargo_args_spec(args_view(args@)),
{
    let mut a = args;
    let ghost v = args_view(a@);
    if a.len() == 0 {
        return a;
    }
    if a.len() >= 2 && flag_matches_exec(&a[1], "flash", true) {
        a.remove(1);
        assert(args_view(a@) =~= v.subrange(0, 1) + v.subrange(2, v.len() as int));
    }
    a.remove(0);
    assert(args_view(a@) =~= (if v.len() >= 2 && v[1] == "flash".spec_bytes() {
        v.subrange(2, v.len() as int)
    } else {
        v.subrange(1, v.len() as int)
    }));
    remove_flag(&mut a, "--chip", true, true);
    remove_flag(&mut a, "--chip=", false, false);
    remove_flag(&mut a, "--chip-description-path", true, true);
    remove_flag(&mut a, "--chip-description-path=", false, false);
    remove_flag(&mut a, "-c", true, true);
    remove_flag(&mut a, "-c=", false, false);
    remove_flag(&mut a, "--nrf-recover", false, false);
    remove_flag(&mut a, "--gdb", false, false);
    remove_flag(&mut a, "--no-download", false, false);
    remove_flag(&mut a, "--reset-halt", false, false);
    remove_flag(&mut a, "--gdb-connection-string", false, false);
    a
}

} // verus!
