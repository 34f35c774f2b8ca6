//! Module-name derivation and invocation-mode resolution.
//!
//! A module's logical name comes from the fetched artifact's file name with
//! any `:tag` suffix and the `.wasm` extension stripped.  The launcher
//! itself answers to several names: invoked as itself it dispatches
//! subcommands, invoked through a `kubectl-<name>` alias it re-derives the
//! module name from its own program name.

use vstd::prelude::*;
use vstd::string::*;
use crate::text::{
    spec_rfind_char, lemma_rfind_char, rfind_char, strip_prefix_str, strip_suffix_str, concat_str,
    str_eq,
};

verus! {

/// The `.wasm` artifact extension.
pub open spec fn wasm_suffix() -> Seq<char> {
    seq!['.', 'w', 'a', 's', 'm']
}

/// The name prefix kubectl requires of its plugin executables.
pub open spec fn kubectl_prefix() -> Seq<char> {
    seq!['k', 'u', 'b', 'e', 'c', 't', 'l', '-']
}

/// `s` with a trailing `:tag` removed: everything from the last colon on
/// is dropped, provided at least one character follows that colon.
pub open spec fn spec_strip_tag(s: Seq<char>) -> Seq<char> {
    match spec_rfind_char(s, ':') {
        Some(i) => if i < s.len() - 1 {
            s.take(i)
        } else {
            s
        },
        None => s,
    }
}

/// Removes a trailing `:tag` from an artifact file name, if one is there.
pub fn strip_tag(s: &str) -> (r: String)
    ensures
        r@ == spec_strip_tag(s@),
{
    proof {
        lemma_rfind_char(s@, ':');
    }
    let len = s.unicode_len();
    match rfind_char(s, ':') {
        Some(i) => {
            if i + 1 < len {
                let head = s.substring_char(0, i);
                assert(head@ =~= s@.take(i as int));
                head.to_owned()
            } else {
                s.to_owned()
            }
        },
        None => s.to_owned(),
    }
}

/// `s` with a trailing `.wasm` removed, if it is there.
pub open spec fn spec_strip_wasm(s: Seq<char>) -> Seq<char> {
    if wasm_suffix().is_suffix_of(s) {
        s.take(s.len() - 5)
    } else {
        s
    }
}

/// Removes the `.wasm` extension, if it is there.
pub fn strip_wasm(s: &str) -> (r: String)
    ensures
        r@ == spec_strip_wasm(s@),
{
    proof {
        reveal_strlit(".wasm");
        assert(".wasm"@ =~= wasm_suffix());
    }
    match strip_suffix_str(s, ".wasm") {
        Some(head) => {
            assert(head@ =~= s@.take(s@.len() - 5));
            head
        },
        None => s.to_owned(),
    }
}

/// The logical module name an artifact file name yields: the `:tag`
/// suffix goes first, then the `.wasm` extension.
pub open spec fn spec_module_name(filename: Seq<char>) -> Seq<char> {
    spec_strip_wasm(spec_strip_tag(filename))
}

/// Derives the logical module name from a fetched artifact's file name.
pub fn module_name_of_filename(filename: &str) -> (r: String)
    ensures
        r@ == spec_module_name(filename@),
{
    let untagged = strip_tag(filename);
    strip_wasm(untagged.as_str())
}

/// The launcher-alias name of a module: `kubectl-` before the name.
pub open spec fn spec_launcher_alias(name: Seq<char>) -> Seq<char> {
    kubectl_prefix() + name
}

/// The `kubectl-<name>` alias under which the module's launcher is found.
pub fn launcher_alias(name: &str) -> (r: String)
    ensures
        r@ == spec_launcher_alias(name@),
{
    proof {
        reveal_strlit("kubectl-");
        assert("kubectl-"@ =~= kubectl_prefix());
    }
    concat_str("kubectl-", name)
}

/// The `argv[0]` a plugin is given when run directly from a path: the
/// path's file name without `.wasm`, with `kubectl-` put in front unless
/// it is already there.
pub open spec fn spec_plugin_arg_name(filename: Seq<char>) -> Seq<char> {
    let base = spec_strip_wasm(filename);
    if kubectl_prefix().is_prefix_of(base) {
        base
    } else {
        kubectl_prefix() + base
    }
}

/// Derives the name a directly-run plugin sees as its own `argv[0]`.
pub fn plugin_arg_name(filename: &str) -> (r: String)
    ensures
        r@ == spec_plugin_arg_name(filename@),
{
    proof {
        reveal_strlit("kubectl-");
        assert("kubectl-"@ =~= kubectl_prefix());
    }
    let base = strip_wasm(filename);
    match strip_prefix_str(base.as_str(), "kubectl-") {
        Some(_) => base,
        None => concat_str("kubectl-", base.as_str()),
    }
}

/// The final component of a `/`-separated path: everything after the
/// last slash, or the whole string when there is none.
pub open spec fn spec_file_name(s: Seq<char>) -> Seq<char> {
    match spec_rfind_char(s, '/') {
        Some(i) => s.skip(i + 1),
        None => s,
    }
}

/// Takes the file-name component of a `/`-separated path.
pub fn file_name(s: &str) -> (r: String)
    ensures
        r@ == spec_file_name(s@),
{
    proof {
        lemma_rfind_char(s@, '/');
    }
    let len = s.unicode_len();
    match rfind_char(s, '/') {
        Some(i) => {
            let tail = s.substring_char(i + 1, len);
            assert(tail@ =~= s@.skip(i + 1));
            tail.to_owned()
        },
        None => s.to_owned(),
    }
}

/// How the host process was invoked, resolved once from `argv[0]`.
#[derive(Debug)]
pub enum InvocationMode {
    /// Invoked under its own name: dispatch subcommands.
    Native,
    /// Invoked through a launcher alias: run the named module.
    Wrapper(String),
}

/// The `argv[0]` values under which the launcher acts as itself, the
/// build-tree spellings included.
pub open spec fn is_native_invocation(argv0: Seq<char>) -> bool {
    ||| argv0 == "krew-wasm"@
    ||| argv0 == "./krew-wasm"@
    ||| argv0 == "target/debug/krew-wasm"@
    ||| argv0 == "target/release/krew-wasm"@
}

/// The module name a wrapper invocation names: the file name of
/// `argv[0]` without its `kubectl-` prefix, or all of `argv[0]` when that
/// prefix is missing.
pub open spec fn spec_wrapper_module_name(argv0: Seq<char>) -> Seq<char> {
    let inv = spec_file_name(argv0);
    if kubectl_prefix().is_prefix_of(inv) {
        inv.skip(8)
    } else {
        argv0
    }
}

/// Resolves the invocation mode from `argv[0]`: the launcher's own names
/// select native dispatch, anything else is a launcher alias naming the
/// module to run.
pub fn invocation_mode(argv0: &str) -> (r: InvocationMode)
    ensures
        is_native_invocation(argv0@) ==> r is Native,
        !is_native_invocation(argv0@) ==> (r matches InvocationMode::Wrapper(name) && name@
            == spec_wrapper_module_name(argv0@)),
{
    if str_eq(argv0, "krew-wasm") || str_eq(argv0, "./krew-wasm") || str_eq(
        argv0,
        "target/debug/krew-wasm",
    ) || str_eq(argv0, "target/release/krew-wasm") {
        InvocationMode::Native
    } else {
        proof {
            reveal_strlit("kubectl-");
            assert("kubectl-"@ =~= kubectl_prefix());
        }
        let inv = file_name(argv0);
        match strip_prefix_str(inv.as_str(), "kubectl-") {
            Some(name) => {
                assert(name@ =~= spec_file_name(argv0@).skip(8));
                InvocationMode::Wrapper(name)
            },
            None => InvocationMode::Wrapper(argv0.to_owned()),
        }
    }
}

/// Whether verbose logging was asked for through the environment: the
/// variable must be present and hold exactly `1`.
pub fn verbose_from_env(value: Option<&str>) -> (r: bool)
    ensures
        r == (value matches Some(v) && v@ == "1"@),
{
    match value {
        Some(v) => str_eq(v, "1"),
        None => false,
    }
}

} // verus!
