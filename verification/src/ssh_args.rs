//! The `ssh` command line of a session: the extra arguments that wire the
//! identity file, the Flatpak known-hosts file and the jump chain, and the
//! command text shown in the terminal before it runs.
use vstd::prelude::*;
use crate::text::{
    append_pieces, ascii_lower, char_vecs_of, chars_of, concat_chars, contains_seq, join_exec,
    join_spec, lemma_join_contains_neighbours, occurs_at, opt_view, push_piece, push_text,
    starts_with, str_views, strings_of, string_of, trim_exec, trim_spec, views,
};
use crate::jump::identity_parts;

verus! {

// ---------------------------------------------------------------------------
// Argument lists
// ---------------------------------------------------------------------------

/// `p` is the first index of `flag` in `args`.
pub open spec fn is_first_index(args: Seq<Seq<char>>, flag: Seq<char>, p: int) -> bool {
    &&& 0 <= p < args.len()
    &&& args[p] == flag
    &&& forall|j: int| 0 <= j < p ==> args[j] != flag
}

/// The first index of `flag` in `args`, if it occurs.
pub open spec fn first_index_of(args: Seq<Seq<char>>, flag: Seq<char>) -> Option<int> {
    if exists|p: int| is_first_index(args, flag, p) {
        Some(choose|p: int| is_first_index(args, flag, p))
    } else {
        None
    }
}

/// `args` without the first `flag` and the value that follows it (when one
/// follows).
pub open spec fn remove_flag_spec(args: Seq<Seq<char>>, flag: Seq<char>) -> Seq<Seq<char>> {
    match first_index_of(args, flag) {
        Some(p) => if p + 1 < args.len() {
            args.subrange(0, p) + args.subrange(p + 2, args.len() as int)
        } else {
            args.subrange(0, p)
        },
        None => args,
    }
}

/// The value that follows the first `flag` in `args`, if both are there.
pub open spec fn flag_value_spec(args: Seq<Seq<char>>, flag: Seq<char>) -> Option<Seq<char>> {
    match first_index_of(args, flag) {
        Some(p) => if p + 1 < args.len() {
            Some(args[p + 1])
        } else {
            None
        },
        None => None,
    }
}

/// The first index of `flag` in `args`.
fn position_of(args: &[Vec<char>], flag: &[char]) -> (r: Option<usize>)
    ensures
        r is None ==> first_index_of(views(args@), flag@) is None,
        r matches Some(p) ==> p < args.len() && first_index_of(views(args@), flag@) == Some(p as int),
{
    let ghost a = views(args@);
    let mut i: usize = 0;
    while i < args.len()
        invariant
            i <= args.len(),
            a == views(args@),
            forall|j: int| 0 <= j < i ==> a[j] != flag@,
        decreases args.len() - i,
    {
        if crate::text::seq_eq(&args[i], flag) {
            assert(is_first_index(a, flag@, i as int));
            proof {
                let c = choose|p: int| is_first_index(a, flag@, p);
                assert(c == i) by {
                    if c < i {
                        assert(a[c] != flag@);
                    } else if c > i {
                        assert(a[i as int] != flag@);
                    }
                }
            }
            return Some(i);
        }
        i = i + 1;
    }
    assert(!exists|p: int| is_first_index(a, flag@, p));
    None
}

/// `args` without the first `flag` and the value after it.
pub fn remove_flag(args: &[Vec<char>], flag: &[char]) -> (r: Vec<Vec<char>>)
    ensures
        views(r@) == remove_flag_spec(views(args@), flag@),
{
    let ghost a = views(args@);
    match position_of(args, flag) {
        None => {
            let mut out: Vec<Vec<char>> = Vec::new();
            append_pieces(&mut out, args);
            out
        },
        Some(p) => {
            let mut out: Vec<Vec<char>> = Vec::new();
            let mut i: usize = 0;
            while i < p
                invariant
                    p < args.len(),
                    i <= p,
                    views(out@) == a.subrange(0, i as int),
                    a == views(args@),
                decreases p - i,
            {
                let mut c: Vec<char> = Vec::new();
                crate::text::append_all(&mut c, &args[i]);
                push_piece(&mut out, c);
                assert(a.subrange(0, i + 1) =~= a.subrange(0, i as int).push(a[i as int]));
                i = i + 1;
            }
            if p + 1 < args.len() {
                let rest = crate::text::slice_pieces_from(args, p + 2);
                append_pieces(&mut out, &rest);
            }
            out
        },
    }
}

/// The value after the first `flag` in `args`.
pub fn flag_value(args: &[Vec<char>], flag: &[char]) -> (r: Option<Vec<char>>)
    ensures
        match r {
            Some(v) => flag_value_spec(views(args@), flag@) == Some(v@),
            None => flag_value_spec(views(args@), flag@) is None,
        },
{
    match position_of(args, flag) {
        Some(p) => if p + 1 < args.len() {
            let mut c: Vec<char> = Vec::new();
            crate::text::append_all(&mut c, &args[p + 1]);
            Some(c)
        } else {
            None
        },
        None => None,
    }
}

// ---------------------------------------------------------------------------
// Known-hosts option
// ---------------------------------------------------------------------------

/// `a` and `b` are equal when ASCII letters are compared without case.
pub open spec fn eq_ignore_ascii_case_spec(a: Seq<char>, b: Seq<char>) -> bool {
    a.len() == b.len() && forall|i: int| 0 <= i < a.len() ==> ascii_lower(a[i]) == ascii_lower(b[i])
}

/// Whether two texts are equal ignoring ASCII case.
pub fn eq_ignore_ascii_case(a: &[char], b: &[char]) -> (r: bool)
    ensures
        r == eq_ignore_ascii_case_spec(a@, b@),
{
    if a.len() != b.len() {
        return false;
    }
    let mut i: usize = 0;
    while i < a.len()
        invariant
            a.len() == b.len(),
            i <= a.len(),
            forall|j: int| 0 <= j < i ==> ascii_lower(a@[j]) == ascii_lower(b@[j]),
        decreases a.len() - i,
    {
        if lower_ascii(a[i]) != lower_ascii(b[i]) {
            return false;
        }
        i = i + 1;
    }
    true
}

/// The ASCII lowercase of one character.
pub fn lower_ascii(c: char) -> (r: char)
    ensures
        r == ascii_lower(c),
{
    if 'A' <= c && c <= 'Z' {
        let n: u32 = (c as u32) + 32;
        char_from_ascii_lower(n)
    } else {
        c
    }
}

/// The character with code `n`, for the codes of `a` to `z`.
fn char_from_ascii_lower(n: u32) -> (r: char)
    requires
        97 <= n <= 122,
    ensures
        r == (n as char),
{
    let b: u8 = n as u8;
    let r = b as char;
    assert(r == (n as char));
    r
}

/// The custom options set `UserKnownHostsFile` themselves (in any case).
pub open spec fn sets_known_hosts(keys: Seq<Seq<char>>) -> bool {
    exists|i: int| 0 <= i < keys.len() && eq_ignore_ascii_case_spec(#[trigger] keys[i], "UserKnownHostsFile"@)
}

/// Whether one of the custom option names is `UserKnownHostsFile`, ignoring
/// ASCII case.
pub fn user_sets_known_hosts(keys: &[String]) -> (r: bool)
    ensures
        r == sets_known_hosts(str_views(keys@)),
{
    let name = chars_of("UserKnownHostsFile");
    let ghost k = str_views(keys@);
    let mut i: usize = 0;
    while i < keys.len()
        invariant
            i <= keys.len(),
            k == str_views(keys@),
            name@ == "UserKnownHostsFile"@,
            forall|j: int| 0 <= j < i ==> !eq_ignore_ascii_case_spec(#[trigger] k[j], "UserKnownHostsFile"@),
        decreases keys.len() - i,
    {
        let c = chars_of(keys[i].as_str());
        if eq_ignore_ascii_case(&c, &name) {
            assert(k[i as int] == keys@[i as int]@);
            return true;
        }
        i = i + 1;
    }
    false
}

/// The Flatpak known-hosts path that is used: none when the user sets
/// `UserKnownHostsFile` in the custom options.
pub open spec fn effective_known_hosts(keys: Seq<Seq<char>>, flatpak: Option<Seq<char>>) -> Option<Seq<char>> {
    if sets_known_hosts(keys) {
        None
    } else {
        flatpak
    }
}

// ---------------------------------------------------------------------------
// The extra arguments
// ---------------------------------------------------------------------------

/// What the SSH command line is built from, besides the jump chain.
#[derive(Clone, Debug)]
pub struct SshArgInputs {
    /// The arguments of the connection's SSH settings.
    pub base_args: Vec<String>,
    /// The resolved identity file, passed to `ssh` on its own.
    pub identity_file: Option<String>,
    /// The names of the custom `-o` options.
    pub custom_option_keys: Vec<String>,
    /// Whether the settings hold a manual `ProxyJump`.
    pub proxy_jump_set: bool,
    /// The writable known-hosts path when running under Flatpak.
    pub flatpak_known_hosts: Option<String>,
}

/// What the jump wiring takes from the helpers that quote and nest commands.
#[derive(Clone, Debug)]
pub struct JumpWiring {
    /// The `env` prefix that runs the first hop's `ssh` under the password
    /// helper, when the first hop's password and the helper are available.
    pub askpass_prefix: Option<Vec<String>>,
    /// The quoted nested `ProxyCommand` for the hops after the first, built
    /// with the resolved identity file so that each hop gets it.
    pub nested_proxy_command: String,
    /// The destination words (`[-p port] [user@]host`) of the first hop.
    pub first_hop_destination: Vec<String>,
    /// The `-J` value for the whole chain.
    pub proxy_jump_arg: String,
}

/// The extra arguments of an SSH session and what came of the jump chain.
#[derive(Clone, Debug)]
pub struct SshCommandArgs {
    pub extra_args: Vec<String>,
    /// The chain joined with `,`, when there is one.
    pub jump_host_chain: Option<String>,
    /// Whether the first hop's password is handed to it by the helper.
    pub askpass_wired: bool,
}

/// `-o <name><value>` when a value is given.
pub open spec fn option_parts(name: Seq<char>, value: Option<Seq<char>>) -> Seq<Seq<char>> {
    match value {
        Some(v) => seq!["-o"@, name + v],
        None => Seq::empty(),
    }
}

/// The arguments before any jump wiring: the settings' arguments without
/// `-i <path>` when the identity file is passed on its own, then the Flatpak
/// known-hosts option.
pub open spec fn args_before_jump(
    base: Seq<Seq<char>>,
    identity_set: bool,
    known_hosts: Option<Seq<char>>,
) -> Seq<Seq<char>> {
    (if identity_set {
        remove_flag_spec(base, "-i"@)
    } else {
        base
    }) + option_parts("UserKnownHostsFile="@, known_hosts)
}

/// The identity file handed to the first hop: the resolved identity file,
/// else the one left in the arguments.
pub open spec fn proxy_identity(args: Seq<Seq<char>>, identity: Option<Seq<char>>) -> Option<Seq<char>> {
    match identity {
        Some(k) => Some(k),
        None => flag_value_spec(args, "-i"@),
    }
}

/// The `ProxyCommand` words for the first hop; `identity` is the resolved
/// identity file, which the nested `ssh` gets with `IdentitiesOnly=yes`.
pub open spec fn ssh_proxy_parts(
    args: Seq<Seq<char>>,
    identity: Option<Seq<char>>,
    hop_count: nat,
    pkcs11: Option<Seq<char>>,
    known_hosts: Option<Seq<char>>,
    askpass_prefix: Option<Seq<Seq<char>>>,
    nested: Seq<char>,
    destination: Seq<Seq<char>>,
) -> Seq<Seq<char>> {
    (match askpass_prefix {
        Some(p) => p,
        None => Seq::empty(),
    }) + seq!["ssh"@, "-W"@, "%h:%p"@] + identity_parts(proxy_identity(args, identity))
        + option_parts(
        "PKCS11Provider="@,
        match pkcs11 {
            Some(p) => Some(trim_spec(p)),
            None => None,
        },
    ) + option_parts("UserKnownHostsFile="@, known_hosts) + (if hop_count > 1 {
        seq!["-o"@, "ProxyCommand="@ + nested]
    } else {
        Seq::empty()
    }) + destination
}

/// The extra arguments of an SSH session with the jump chain `hops`. With a
/// chain, the manual `-J` of the settings is replaced: by one `ProxyCommand`
/// for the first hop when a known-hosts file, a PKCS#11 provider or the
/// password helper must reach it, else by `-J` with the whole chain.
pub open spec fn ssh_extra_args_spec(
    base: Seq<Seq<char>>,
    identity: Option<Seq<char>>,
    keys: Seq<Seq<char>>,
    proxy_jump_set: bool,
    flatpak: Option<Seq<char>>,
    hops: Seq<Seq<char>>,
    pkcs11: Option<Seq<char>>,
    askpass_prefix: Option<Seq<Seq<char>>>,
    nested: Seq<char>,
    destination: Seq<Seq<char>>,
    proxy_jump_arg: Seq<char>,
) -> Seq<Seq<char>> {
    let kh = effective_known_hosts(keys, flatpak);
    let args = args_before_jump(base, identity is Some, kh);
    if hops.len() == 0 {
        args
    } else {
        let args = if proxy_jump_set {
            remove_flag_spec(args, "-J"@)
        } else {
            args
        };
        if kh is Some || pkcs11 is Some || askpass_prefix is Some {
            args + seq![
                "-o"@,
                "ProxyCommand="@ + join_spec(
                    ssh_proxy_parts(args, identity, hops.len(), pkcs11, kh, askpass_prefix, nested, destination),
                    " "@,
                ),
            ]
        } else {
            args + seq!["-J"@, proxy_jump_arg]
        }
    }
}

/// When the jump chain is not empty and the first hop has a PKCS#11
/// provider, the chain reaches the first hop through a `ProxyCommand`: the
/// extra arguments are those of the same session without a chain (less the
/// settings' manual `-J` when they hold one), then `-o` and a
/// `ProxyCommand=` whose command holds `-o PKCS11Provider=<provider,
/// trimmed>`. No `-J` takes the chain to the first hop.
pub proof fn pkcs11_first_hop_goes_through_proxy_command(
    base: Seq<Seq<char>>,
    identity: Option<Seq<char>>,
    keys: Seq<Seq<char>>,
    proxy_jump_set: bool,
    flatpak: Option<Seq<char>>,
    hops: Seq<Seq<char>>,
    pkcs11: Option<Seq<char>>,
    askpass_prefix: Option<Seq<Seq<char>>>,
    nested: Seq<char>,
    destination: Seq<Seq<char>>,
    proxy_jump_arg: Seq<char>,
)
    requires
        hops.len() > 0,
        pkcs11 is Some,
    ensures
        ({
            let r = ssh_extra_args_spec(
                base,
                identity,
                keys,
                proxy_jump_set,
                flatpak,
                hops,
                pkcs11,
                askpass_prefix,
                nested,
                destination,
                proxy_jump_arg,
            );
            let direct = ssh_extra_args_spec(
                base,
                identity,
                keys,
                proxy_jump_set,
                flatpak,
                Seq::empty(),
                pkcs11,
                askpass_prefix,
                nested,
                destination,
                proxy_jump_arg,
            );
            &&& r.len() >= 2
            &&& r.subrange(0, r.len() - 2) == (if proxy_jump_set {
                remove_flag_spec(direct, "-J"@)
            } else {
                direct
            })
            &&& r[r.len() - 2] == "-o"@
            &&& starts_with(r.last(), "ProxyCommand="@)
            &&& contains_seq(r.last(), "-o"@ + " "@ + ("PKCS11Provider="@ + trim_spec(pkcs11->0)))
        }),
{
    let kh = effective_known_hosts(keys, flatpak);
    let a0 = args_before_jump(base, identity is Some, kh);
    let args = if proxy_jump_set {
        remove_flag_spec(a0, "-J"@)
    } else {
        a0
    };
    let t = trim_spec(pkcs11->0);
    let parts = ssh_proxy_parts(args, identity, hops.len(), pkcs11, kh, askpass_prefix, nested, destination);
    let pre: Seq<Seq<char>> = match askpass_prefix {
        Some(q) => q,
        None => Seq::empty(),
    };
    let head = pre + seq!["ssh"@, "-W"@, "%h:%p"@] + identity_parts(proxy_identity(args, identity));
    let i = head.len() as int;
    assert(option_parts("PKCS11Provider="@, Some(t)) == seq!["-o"@, "PKCS11Provider="@ + t]);
    assert(parts[i] == "-o"@);
    assert(parts[i + 1] == "PKCS11Provider="@ + t);
    lemma_join_contains_neighbours(parts, " "@, i);
    let j = join_spec(parts, " "@);
    let needle = parts[i] + " "@ + parts[i + 1];
    let k = choose|k: int| occurs_at(j, needle, k);
    let line = "ProxyCommand="@ + j;
    let off = "ProxyCommand="@.len() as int;
    assert(line.subrange(off + k, off + k + needle.len()) =~= j.subrange(k, k + needle.len()));
    assert(occurs_at(line, needle, off + k));
    assert(line.subrange(0, off) =~= "ProxyCommand="@);
    let r = args + seq!["-o"@, line];
    assert(r.subrange(0, r.len() - 2) =~= args);
}

/// Appends `-o <name><value>` when a value is given.
fn push_option(parts: &mut Vec<Vec<char>>, name: &str, value: Option<&[char]>)
    ensures
        views(final(parts)@) == views(old(parts)@) + option_parts(
            name@,
            match value {
                Some(v) => Some(v@),
                None => None,
            },
        ),
{
    match value {
        Some(v) => {
            push_text(parts, "-o");
            push_piece(parts, concat_chars(&chars_of(name), v));
        },
        None => {},
    }
}

/// The arguments before the jump wiring, and the known-hosts path used.
fn ssh_base_args(inputs: &SshArgInputs) -> (r: (Vec<Vec<char>>, Option<Vec<char>>))
    ensures
        match r.1 {
            Some(v) => effective_known_hosts(
                str_views(inputs.custom_option_keys@),
                crate::text::opt_string_view(inputs.flatpak_known_hosts),
            ) == Some(v@),
            None => effective_known_hosts(
                str_views(inputs.custom_option_keys@),
                crate::text::opt_string_view(inputs.flatpak_known_hosts),
            ) is None,
        },
        views(r.0@) == args_before_jump(
            str_views(inputs.base_args@),
            inputs.identity_file is Some,
            effective_known_hosts(
                str_views(inputs.custom_option_keys@),
                crate::text::opt_string_view(inputs.flatpak_known_hosts),
            ),
        ),
{
    let base = char_vecs_of(&inputs.base_args);
    let kh: Option<Vec<char>> = if user_sets_known_hosts(&inputs.custom_option_keys) {
        None
    } else {
        match &inputs.flatpak_known_hosts {
            Some(p) => Some(chars_of(p.as_str())),
            None => None,
        }
    };
    let mut args = if inputs.identity_file.is_some() {
        remove_flag(&base, &chars_of("-i"))
    } else {
        base
    };
    match &kh {
        Some(p) => push_option(&mut args, "UserKnownHostsFile=", Some(p.as_slice())),
        None => push_option(&mut args, "UserKnownHostsFile=", None),
    }
    (args, kh)
}

/// The `ProxyCommand` words for the first hop.
fn ssh_proxy_parts_exec(
    args: &[Vec<char>],
    identity: Option<&str>,
    hop_count: usize,
    pkcs11: Option<&str>,
    known_hosts: &Option<Vec<char>>,
    wiring: &JumpWiring,
) -> (parts: Vec<Vec<char>>)
    ensures
        views(parts@) == ssh_proxy_parts(
            views(args@),
            opt_view(identity),
            hop_count as nat,
            opt_view(pkcs11),
            match known_hosts {
                Some(v) => Some(v@),
                None => None,
            },
            match wiring.askpass_prefix {
                Some(p) => Some(str_views(p@)),
                None => None,
            },
            wiring.nested_proxy_command@,
            str_views(wiring.first_hop_destination@),
        ),
{
    let ghost a0: Seq<Seq<char>> = match &wiring.askpass_prefix {
        Some(p) => str_views(p@),
        None => Seq::empty(),
    };
    let mut parts: Vec<Vec<char>> = Vec::new();
    match &wiring.askpass_prefix {
        Some(p) => {
            let pv = char_vecs_of(p);
            append_pieces(&mut parts, &pv);
        },
        None => {},
    }
    assert(views(parts@) =~= a0);
    push_text(&mut parts, "ssh");
    push_text(&mut parts, "-W");
    push_text(&mut parts, "%h:%p");
    let ghost a1 = a0 + seq!["ssh"@, "-W"@, "%h:%p"@];
    assert(views(parts@) =~= a1);
    let key: Option<Vec<char>> = match identity {
        Some(k) => Some(chars_of(k)),
        None => flag_value(args, &chars_of("-i")),
    };
    match key {
        Some(k) => {
            push_text(&mut parts, "-i");
            push_piece(&mut parts, k);
            push_text(&mut parts, "-o");
            push_text(&mut parts, "IdentitiesOnly=yes");
        },
        None => {},
    }
    let ghost a2 = a1 + identity_parts(proxy_identity(views(args@), opt_view(identity)));
    assert(views(parts@) =~= a2);
    let ghost pkv: Option<Seq<char>> = match pkcs11 {
        Some(p) => Some(trim_spec(p@)),
        None => None,
    };
    match pkcs11 {
        Some(p) => {
            let t = trim_exec(&chars_of(p));
            push_option(&mut parts, "PKCS11Provider=", Some(t.as_slice()));
        },
        None => push_option(&mut parts, "PKCS11Provider=", None),
    }
    let ghost a3 = a2 + option_parts("PKCS11Provider="@, pkv);
    assert(views(parts@) =~= a3);
    let ghost khv: Option<Seq<char>> = match known_hosts {
        Some(v) => Some(v@),
        None => None,
    };
    match known_hosts {
        Some(p) => push_option(&mut parts, "UserKnownHostsFile=", Some(p.as_slice())),
        None => push_option(&mut parts, "UserKnownHostsFile=", None),
    }
    let ghost a4 = a3 + option_parts("UserKnownHostsFile="@, khv);
    assert(views(parts@) =~= a4);
    if hop_count > 1 {
        push_text(&mut parts, "-o");
        push_piece(
            &mut parts,
            concat_chars(&chars_of("ProxyCommand="), &chars_of(wiring.nested_proxy_command.as_str())),
        );
    }
    let ghost a5 = a4 + (if hop_count > 1 {
        seq!["-o"@, "ProxyCommand="@ + wiring.nested_proxy_command@]
    } else {
        Seq::empty()
    });
    assert(views(parts@) =~= a5);
    let dest = char_vecs_of(&wiring.first_hop_destination);
    append_pieces(&mut parts, &dest);
    parts
}

/// Builds the extra SSH arguments for a session whose jump chain is
/// `hops` and whose first hop's PKCS#11 provider is `first_hop_pkcs11`.
pub fn ssh_command_args(
    inputs: &SshArgInputs,
    hops: &[String],
    first_hop_pkcs11: Option<&str>,
    wiring: &JumpWiring,
) -> (r: SshCommandArgs)
    ensures
        str_views(r.extra_args@) == ssh_extra_args_spec(
            str_views(inputs.base_args@),
            crate::text::opt_string_view(inputs.identity_file),
            str_views(inputs.custom_option_keys@),
            inputs.proxy_jump_set,
            crate::text::opt_string_view(inputs.flatpak_known_hosts),
            str_views(hops@),
            opt_view(first_hop_pkcs11),
            match wiring.askpass_prefix {
                Some(p) => Some(str_views(p@)),
                None => None,
            },
            wiring.nested_proxy_command@,
            str_views(wiring.first_hop_destination@),
            wiring.proxy_jump_arg@,
        ),
        match r.jump_host_chain {
            Some(c) => hops.len() > 0 && c@ == join_spec(str_views(hops@), ","@),
            None => hops.len() == 0,
        },
        r.askpass_wired == (hops.len() > 0 && wiring.askpass_prefix is Some),
{
    let (mut args, kh) = ssh_base_args(inputs);
    if hops.len() == 0 {
        return SshCommandArgs { extra_args: strings_of(&args), jump_host_chain: None, askpass_wired: false };
    }
    if inputs.proxy_jump_set {
        args = remove_flag(&args, &chars_of("-J"));
    }
    let hop_chars = char_vecs_of(hops);
    let chain = join_exec(&hop_chars, &chars_of(","));
    if kh.is_some() || first_hop_pkcs11.is_some() || wiring.askpass_prefix.is_some() {
        let identity = crate::text::opt_as_str(&inputs.identity_file);
        let parts = ssh_proxy_parts_exec(&args, identity, hops.len(), first_hop_pkcs11, &kh, wiring);
        push_text(&mut args, "-o");
        let joined = join_exec(&parts, &chars_of(" "));
        push_piece(&mut args, concat_chars(&chars_of("ProxyCommand="), &joined));
    } else {
        push_text(&mut args, "-J");
        push_piece(&mut args, chars_of(wiring.proxy_jump_arg.as_str()));
    }
    SshCommandArgs {
        extra_args: strings_of(&args),
        jump_host_chain: Some(string_of(&chain)),
        askpass_wired: wiring.askpass_prefix.is_some(),
    }
}

} // verus!
