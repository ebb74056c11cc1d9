//! Shell detection: which shells are available on this system, in priority
//! order, and which one a new tab opens with by default.
//!
//! Availability is probed through the `which` crate; what the probe answers
//! depends on the machine, so the contracts here state what holds of every
//! outcome. The container listings (docker, podman, distrobox) are obtained
//! by the caller and parsed here.

use vstd::prelude::*;
use crate::text::{spec_lines, spec_split, spec_trim, split_char, split_lines, trim};

verus! {

/// A detected shell: its display name and the command that starts it.
pub struct DetectedShell {
    pub name: String,
    pub command: String,
}

/// A shell to probe for: its display name, its command, and well-known
/// absolute paths to try besides the search path.
pub struct ShellCandidate {
    pub name: &'static str,
    pub command: &'static str,
    pub paths: Vec<&'static str>,
}

/// The (name, command) pairs of the shells probed for on this platform, in
/// priority order.
pub open spec fn spec_shell_candidates() -> Seq<(Seq<char>, Seq<char>)> {
    seq![
        ("Bash"@, "bash"@),
        ("Zsh"@, "zsh"@),
        ("Fish"@, "fish"@),
        ("Nushell"@, "nu"@),
        ("sh"@, "sh"@),
    ]
}

/// The shells probed for on this platform, in priority order, with their
/// well-known paths.
pub fn get_shell_candidates() -> (r: Vec<ShellCandidate>)
    ensures
        r@.len() == spec_shell_candidates().len(),
        forall|j: int|
            0 <= j < r@.len() ==> (#[trigger] r@[j]).name@ == spec_shell_candidates()[j].0
                && r@[j].command@ == spec_shell_candidates()[j].1,
{
    let mut candidates: Vec<ShellCandidate> = Vec::new();
    let mut bash_paths: Vec<&'static str> = Vec::new();
    bash_paths.push("/bin/bash");
    bash_paths.push("/usr/bin/bash");
    candidates.push(ShellCandidate { name: "Bash", command: "bash", paths: bash_paths });
    let mut zsh_paths: Vec<&'static str> = Vec::new();
    zsh_paths.push("/bin/zsh");
    zsh_paths.push("/usr/bin/zsh");
    candidates.push(ShellCandidate { name: "Zsh", command: "zsh", paths: zsh_paths });
    let mut fish_paths: Vec<&'static str> = Vec::new();
    fish_paths.push("/usr/bin/fish");
    fish_paths.push("/usr/local/bin/fish");
    candidates.push(ShellCandidate { name: "Fish", command: "fish", paths: fish_paths });
    let mut nu_paths: Vec<&'static str> = Vec::new();
    nu_paths.push("/usr/bin/nu");
    nu_paths.push("/usr/local/bin/nu");
    candidates.push(ShellCandidate { name: "Nushell", command: "nu", paths: nu_paths });
    let mut sh_paths: Vec<&'static str> = Vec::new();
    sh_paths.push("/bin/sh");
    candidates.push(ShellCandidate { name: "sh", command: "sh", paths: sh_paths });
    candidates
}

/// Relies on which::which: finds an executable by name on the search path,
/// or checks the file itself when the name contains a path separator. What
/// it answers depends on the machine, so nothing is promised of the result.
#[verifier::external_body]
fn executable_exists(command: &str) -> (r: bool) {
    which::which(command).is_ok()
}

/// Whether the shell is present: at one of the candidate's well-known
/// paths, or on the search path. The answer depends on the machine.
pub fn shell_exists(command: &str, paths: &Vec<&'static str>) -> (r: bool) {
    let n = paths.len();
    let mut i: usize = 0;
    while i < n
        invariant
            n == paths.len(),
            i <= n,
        decreases n - i,
    {
        if executable_exists(paths[i]) {
            return true;
        }
        i = i + 1;
    }
    executable_exists(command)
}

/// No two platform shell candidates share a command.
proof fn lemma_candidate_commands_distinct()
    ensures
        forall|i: int, j: int|
            0 <= i < j < spec_shell_candidates().len() ==> (#[trigger] spec_shell_candidates()[
                i
            ]).1 != (#[trigger] spec_shell_candidates()[j]).1,
{
    reveal_strlit("bash");
    reveal_strlit("zsh");
    reveal_strlit("fish");
    reveal_strlit("nu");
    reveal_strlit("sh");
    assert forall|i: int, j: int|
        0 <= i < j < spec_shell_candidates().len() implies (#[trigger] spec_shell_candidates()[
        i
    ]).1 != (#[trigger] spec_shell_candidates()[j]).1 by {
        assert("bash"@.len() == 4 && "zsh"@.len() == 3 && "fish"@.len() == 4 && "nu"@.len() == 2
            && "sh"@.len() == 2);
        assert("bash"@[0] == 'b' && "fish"@[0] == 'f' && "nu"@[0] == 'n' && "sh"@[0] == 's');
    }
}

/// The candidates that answered the probe, in priority order: the
/// (name, command) pairs of the positions where `available` is true.
pub open spec fn spec_available_shells(
    candidates: Seq<(Seq<char>, Seq<char>)>,
    available: Seq<bool>,
) -> Seq<(Seq<char>, Seq<char>)>
    decreases candidates.len(),
{
    if candidates.len() == 0 || available.len() == 0 {
        Seq::empty()
    } else {
        let rest = spec_available_shells(candidates.drop_first(), available.drop_first());
        if available[0] {
            seq![candidates[0]] + rest
        } else {
            rest
        }
    }
}

/// Selecting the available shells distributes over concatenation of
/// equal-length lists.
proof fn lemma_available_shells_concat(
    c1: Seq<(Seq<char>, Seq<char>)>,
    c2: Seq<(Seq<char>, Seq<char>)>,
    a1: Seq<bool>,
    a2: Seq<bool>,
)
    requires
        c1.len() == a1.len(),
        c2.len() == a2.len(),
    ensures
        spec_available_shells(c1 + c2, a1 + a2) == spec_available_shells(c1, a1)
            + spec_available_shells(c2, a2),
    decreases c1.len(),
{
    if c1.len() == 0 {
        assert(c1 + c2 =~= c2);
        assert(a1 + a2 =~= a2);
        assert(spec_available_shells(c1, a1) + spec_available_shells(c2, a2)
            =~= spec_available_shells(c2, a2));
    } else {
        assert((c1 + c2).drop_first() =~= c1.drop_first() + c2);
        assert((a1 + a2).drop_first() =~= a1.drop_first() + a2);
        lemma_available_shells_concat(c1.drop_first(), c2, a1.drop_first(), a2);
        assert(spec_available_shells(c1 + c2, a1 + a2) =~= spec_available_shells(c1, a1)
            + spec_available_shells(c2, a2));
    }
}

/// The shells selected by a probe outcome: for each platform candidate, the
/// matching entry of `available` says whether its probe succeeded, and the
/// result lists exactly the available candidates, in priority order.
pub fn select_available_shells(candidates: &Vec<ShellCandidate>, available: &Vec<bool>) -> (r: Vec<
    DetectedShell,
>)
    requires
        candidates@.len() == available@.len(),
        candidates@.len() == spec_shell_candidates().len(),
        forall|j: int|
            0 <= j < candidates@.len() ==> (#[trigger] candidates@[j]).name@
                == spec_shell_candidates()[j].0 && candidates@[j].command@
                == spec_shell_candidates()[j].1,
    ensures
        ({
            let selected = spec_available_shells(spec_shell_candidates(), available@);
            &&& r@.len() == selected.len()
            &&& forall|q: int|
                0 <= q < r@.len() ==> (#[trigger] r@[q]).name@ == selected[q].0 && r@[q].command@
                    == selected[q].1
        }),
{
    let mut detected: Vec<DetectedShell> = Vec::new();
    let n = candidates.len();
    let mut i: usize = 0;
    proof {
        assert(spec_shell_candidates().take(0) =~= Seq::<(Seq<char>, Seq<char>)>::empty());
        assert(available@.take(0) =~= Seq::<bool>::empty());
    }
    while i < n
        invariant
            n == candidates@.len(),
            n == available@.len(),
            n == spec_shell_candidates().len(),
            i <= n,
            forall|j: int|
                0 <= j < n ==> (#[trigger] candidates@[j]).name@ == spec_shell_candidates()[j].0
                    && candidates@[j].command@ == spec_shell_candidates()[j].1,
            ({
                let selected = spec_available_shells(
                    spec_shell_candidates().take(i as int),
                    available@.take(i as int),
                );
                &&& detected@.len() == selected.len()
                &&& forall|q: int|
                    0 <= q < detected@.len() ==> (#[trigger] detected@[q]).name@ == selected[q].0
                        && detected@[q].command@ == selected[q].1
            }),
        decreases n - i,
    {
        proof {
            reveal_with_fuel(spec_available_shells, 3);
            assert(spec_shell_candidates().take(i + 1) =~= spec_shell_candidates().take(i as int)
                + seq![spec_shell_candidates()[i as int]]);
            assert(available@.take(i + 1) =~= available@.take(i as int) + seq![
                available@[i as int]
            ]);
            lemma_available_shells_concat(
                spec_shell_candidates().take(i as int),
                seq![spec_shell_candidates()[i as int]],
                available@.take(i as int),
                seq![available@[i as int]],
            );
            assert(seq![spec_shell_candidates()[i as int]].drop_first() =~= Seq::<(
                Seq<char>,
                Seq<char>,
            )>::empty());
            assert(seq![available@[i as int]].drop_first() =~= Seq::<bool>::empty());
        }
        if available[i] {
            let candidate = &candidates[i];
            let entry = DetectedShell {
                name: String::from_str(candidate.name),
                command: String::from_str(candidate.command),
            };
            detected.push(entry);
        }
        i = i + 1;
    }
    proof {
        assert(spec_shell_candidates().take(n as int) =~= spec_shell_candidates());
        assert(available@.take(n as int) =~= available@);
    }
    detected
}

/// No two available shells share a command: they come from distinct
/// candidates.
pub proof fn lemma_available_shells_distinct(available: Seq<bool>)
    ensures
        ({
            let selected = spec_available_shells(spec_shell_candidates(), available);
            forall|i: int, k: int|
                #![trigger selected[i], selected[k]]
                0 <= i < k < selected.len() ==> selected[i].1 != selected[k].1
        }),
{
    lemma_candidate_commands_distinct();
    lemma_available_shells_from(spec_shell_candidates(), available);
}

/// Every selected shell is one of its candidates, and distinct selections
/// come from distinct candidate positions, in order.
proof fn lemma_available_shells_from(candidates: Seq<(Seq<char>, Seq<char>)>, available: Seq<bool>)
    ensures
        ({
            let selected = spec_available_shells(candidates, available);
            &&& forall|i: int|
                0 <= i < selected.len() ==> exists|j: int|
                    0 <= j < candidates.len() && #[trigger] selected[i] == candidates[j]
            &&& (forall|p: int, q: int|
                #![trigger candidates[p], candidates[q]]
                0 <= p < q < candidates.len() ==> candidates[p].1 != candidates[q].1) ==> forall|
                i: int,
                k: int,
            |
                #![trigger selected[i], selected[k]]
                0 <= i < k < selected.len() ==> selected[i].1 != selected[k].1
        }),
    decreases candidates.len(),
{
    if candidates.len() == 0 || available.len() == 0 {
    } else {
        lemma_available_shells_from(candidates.drop_first(), available.drop_first());
        let selected = spec_available_shells(candidates, available);
        let rest = spec_available_shells(candidates.drop_first(), available.drop_first());
        assert forall|i: int| 0 <= i < selected.len() implies exists|j: int|
            0 <= j < candidates.len() && #[trigger] selected[i] == candidates[j] by {
            if available[0] && i == 0 {
                assert(selected[0] == candidates[0]);
            } else {
                let i0: int = if available[0] {
                    i - 1
                } else {
                    i
                };
                assert(selected[i] == rest[i0]);
                let j0 = choose|j0: int|
                    0 <= j0 < candidates.drop_first().len() && #[trigger] rest[i0]
                        == candidates.drop_first()[j0];
                assert(selected[i] == candidates[j0 + 1]);
            }
        }
        if forall|p: int, q: int|
            #![trigger candidates[p], candidates[q]]
            0 <= p < q < candidates.len() ==> candidates[p].1 != candidates[q].1 {
            assert forall|p: int, q: int|
                #![trigger candidates.drop_first()[p], candidates.drop_first()[q]]
                0 <= p < q < candidates.drop_first().len() implies candidates.drop_first()[p].1
                != candidates.drop_first()[q].1 by {
                assert(candidates.drop_first()[p] == candidates[p + 1]);
                assert(candidates.drop_first()[q] == candidates[q + 1]);
            }
            assert forall|i: int, k: int|
                #![trigger selected[i], selected[k]]
                0 <= i < k < selected.len() implies selected[i].1 != selected[k].1 by {
                if available[0] && i == 0 {
                    assert(selected[k] == rest[k - 1]);
                    let j0 = choose|j0: int|
                        0 <= j0 < candidates.drop_first().len() && #[trigger] rest[k - 1]
                            == candidates.drop_first()[j0];
                    assert(selected[k] == candidates[j0 + 1]);
                    assert(candidates[0].1 != candidates[j0 + 1].1);
                } else {
                    let off: int = if available[0] {
                        1
                    } else {
                        0
                    };
                    assert(selected[i] == rest[i - off]);
                    assert(selected[k] == rest[k - off]);
                }
            }
        }
    }
}

/// Detects the shells available on this system, in priority order: each
/// platform candidate is probed, and the result is exactly the selection
/// [`spec_available_shells`] makes from those probe outcomes. Which
/// candidates answer depends on the machine, so beyond that the contract
/// promises only what holds of every outcome: entries drawn from the
/// candidates, in order, with no command twice.
pub fn detect_shells() -> (r: Vec<DetectedShell>)
    ensures
        forall|i: int|
            0 <= i < r@.len() ==> exists|j: int|
                0 <= j < spec_shell_candidates().len() && (#[trigger] r@[i]).name@
                    == spec_shell_candidates()[j].0 && r@[i].command@ == spec_shell_candidates()[
                    j
                ].1,
        forall|i: int, k: int|
            #![trigger r@[i], r@[k]]
            0 <= i < k < r@.len() ==> r@[i].command@ != r@[k].command@,
{
    let candidates = get_shell_candidates();
    let mut available: Vec<bool> = Vec::new();
    let n = candidates.len();
    let mut i: usize = 0;
    while i < n
        invariant
            n == candidates@.len(),
            i <= n,
            available@.len() == i,
        decreases n - i,
    {
        let candidate = &candidates[i];
        available.push(shell_exists(candidate.command, &candidate.paths));
        i = i + 1;
    }
    let detected = select_available_shells(&candidates, &available);
    proof {
        lemma_available_shells_from(spec_shell_candidates(), available@);
        lemma_available_shells_distinct(available@);
    }
    detected
}

/// The command of the first available shell (the highest-priority one), or
/// nothing when no shell answered the probe. Whatever comes back is the
/// command of one of the platform's shell candidates.
pub fn get_default_shell() -> (r: Option<String>)
    ensures
        r matches Some(s) ==> exists|j: int|
            0 <= j < spec_shell_candidates().len() && s@ == spec_shell_candidates()[j].1,
{
    let shells = detect_shells();
    if shells.len() > 0 {
        let first = &shells[0];
        Some(first.command.clone())
    } else {
        None
    }
}

/// The (name, command) entries read from one container runtime's listing:
/// one entry per line with a non-blank name, labelled for display and
/// wrapped in the runtime's exec command.
pub open spec fn spec_runtime_entries(
    lines: Seq<Seq<char>>,
    label: Seq<char>,
    prefix: Seq<char>,
    suffix: Seq<char>,
) -> Seq<(Seq<char>, Seq<char>)>
    decreases lines.len(),
{
    if lines.len() == 0 {
        Seq::empty()
    } else {
        let t = spec_trim(lines[0]);
        let rest = spec_runtime_entries(lines.drop_first(), label, prefix, suffix);
        if t.len() == 0 {
            rest
        } else {
            seq![(label + t, prefix + t + suffix)] + rest
        }
    }
}

/// Reading runtime entries distributes over concatenation of line lists.
proof fn lemma_runtime_entries_concat(
    l1: Seq<Seq<char>>,
    l2: Seq<Seq<char>>,
    label: Seq<char>,
    prefix: Seq<char>,
    suffix: Seq<char>,
)
    ensures
        spec_runtime_entries(l1 + l2, label, prefix, suffix) == spec_runtime_entries(
            l1,
            label,
            prefix,
            suffix,
        ) + spec_runtime_entries(l2, label, prefix, suffix),
    decreases l1.len(),
{
    if l1.len() == 0 {
        assert(l1 + l2 =~= l2);
        assert(spec_runtime_entries(l1, label, prefix, suffix) + spec_runtime_entries(
            l2,
            label,
            prefix,
            suffix,
        ) =~= spec_runtime_entries(l2, label, prefix, suffix));
    } else {
        assert((l1 + l2).drop_first() =~= l1.drop_first() + l2);
        lemma_runtime_entries_concat(l1.drop_first(), l2, label, prefix, suffix);
        assert(spec_runtime_entries(l1 + l2, label, prefix, suffix) =~= spec_runtime_entries(
            l1,
            label,
            prefix,
            suffix,
        ) + spec_runtime_entries(l2, label, prefix, suffix));
    }
}

/// The (name, command) entries read from a distrobox listing: the header
/// line is skipped; each further line is split on `|`, and the second
/// column, trimmed, names a container unless it is blank or the header
/// word.
pub open spec fn spec_distrobox_entries(lines: Seq<Seq<char>>) -> Seq<(Seq<char>, Seq<char>)>
    decreases lines.len(),
{
    if lines.len() == 0 {
        Seq::empty()
    } else {
        let parts = spec_split(lines[0], '|');
        let rest = spec_distrobox_entries(lines.drop_first());
        if parts.len() >= 2 {
            let t = spec_trim(parts[1]);
            if t.len() > 0 && t != "NAME"@ {
                seq![("[Distrobox] "@ + t, "distrobox enter "@ + t)] + rest
            } else {
                rest
            }
        } else {
            rest
        }
    }
}

/// Reading distrobox entries distributes over concatenation of line lists.
proof fn lemma_distrobox_entries_concat(l1: Seq<Seq<char>>, l2: Seq<Seq<char>>)
    ensures
        spec_distrobox_entries(l1 + l2) == spec_distrobox_entries(l1) + spec_distrobox_entries(
            l2,
        ),
    decreases l1.len(),
{
    if l1.len() == 0 {
        assert(l1 + l2 =~= l2);
        assert(spec_distrobox_entries(l1) + spec_distrobox_entries(l2)
            =~= spec_distrobox_entries(l2));
    } else {
        assert((l1 + l2).drop_first() =~= l1.drop_first() + l2);
        lemma_distrobox_entries_concat(l1.drop_first(), l2);
        assert(spec_distrobox_entries(l1 + l2) =~= spec_distrobox_entries(l1)
            + spec_distrobox_entries(l2));
    }
}

/// All container entries of the three listings together, in order: docker,
/// podman, distrobox; a listing that is absent contributes nothing.
pub open spec fn spec_container_shells(
    docker_output: Option<Seq<char>>,
    podman_output: Option<Seq<char>>,
    distrobox_output: Option<Seq<char>>,
) -> Seq<(Seq<char>, Seq<char>)> {
    let d = match docker_output {
        Some(o) => spec_runtime_entries(
            spec_lines(o),
            "[Docker] "@,
            "docker exec -it "@,
            " /bin/sh"@,
        ),
        None => Seq::empty(),
    };
    let p = match podman_output {
        Some(o) => spec_runtime_entries(
            spec_lines(o),
            "[Podman] "@,
            "podman exec -it "@,
            " /bin/sh"@,
        ),
        None => Seq::empty(),
    };
    let b = match distrobox_output {
        Some(o) => ({
            let lines = spec_lines(o);
            if lines.len() > 0 {
                spec_distrobox_entries(lines.drop_first())
            } else {
                Seq::empty()
            }
        }),
        None => Seq::empty(),
    };
    d + p + b
}

/// Appends the entries of one runtime's listing, as
/// [`spec_runtime_entries`] lists them.
fn push_runtime_entries(
    out: &mut Vec<DetectedShell>,
    output: &str,
    label: &str,
    prefix: &str,
    suffix: &str,
)
    ensures
        ({
            let entries = spec_runtime_entries(spec_lines(output@), label@, prefix@, suffix@);
            &&& final(out)@.len() == old(out)@.len() + entries.len()
            &&& forall|q: int|
                0 <= q < old(out)@.len() ==> final(out)@[q] == old(out)@[q]
            &&& forall|q: int|
                old(out)@.len() <= q < final(out)@.len() ==> (#[trigger] final(out)@[q]).name@
                    == entries[q - old(out)@.len()].0 && final(out)@[q].command@ == entries[q - old(
                    out,
                )@.len()].1
        }),
{
    let lines = split_lines(output);
    let ghost all_lines = spec_lines(output@);
    let n = lines.len();
    let mut i: usize = 0;
    while i < n
        invariant
            n == lines@.len(),
            i <= n,
            all_lines.len() == n,
            forall|q: int| 0 <= q < n ==> (#[trigger] lines@[q])@ == all_lines[q],
            out@.len() == old(out)@.len() + spec_runtime_entries(
                all_lines.take(i as int),
                label@,
                prefix@,
                suffix@,
            ).len(),
            forall|q: int| 0 <= q < old(out)@.len() ==> out@[q] == old(out)@[q],
            ({
                let entries = spec_runtime_entries(
                    all_lines.take(i as int),
                    label@,
                    prefix@,
                    suffix@,
                );
                forall|q: int|
                    old(out)@.len() <= q < out@.len() ==> (#[trigger] out@[q]).name@ == entries[q
                        - old(out)@.len()].0 && out@[q].command@ == entries[q - old(out)@.len()].1
            }),
        decreases n - i,
    {
        proof {
            reveal_with_fuel(spec_runtime_entries, 3);
            assert(all_lines.take(i + 1) =~= all_lines.take(i as int) + seq![all_lines[i as int]]);
            lemma_runtime_entries_concat(
                all_lines.take(i as int),
                seq![all_lines[i as int]],
                label@,
                prefix@,
                suffix@,
            );
            assert(seq![all_lines[i as int]].drop_first() =~= Seq::<Seq<char>>::empty());
        }
        let trimmed = trim(lines[i].as_str());
        if trimmed.unicode_len() > 0 {
            let name = String::from_str(label).concat(trimmed);
            let command = String::from_str(prefix).concat(trimmed).concat(suffix);
            out.push(DetectedShell { name, command });
        }
        i = i + 1;
    }
    proof {
        assert(all_lines.take(n as int) =~= all_lines);
    }
}

/// Detects Linux containers (docker, podman, distrobox) that can host a
/// shell, from the runtimes' own listings, which the caller obtains: each
/// argument is the standard output of the runtime's list command, or `None`
/// where the runtime is absent or failed. The result is exactly what
/// [`spec_container_shells`] reads from those listings.
pub fn detect_container_shells(
    docker_output: Option<&str>,
    podman_output: Option<&str>,
    distrobox_output: Option<&str>,
) -> (r: Vec<DetectedShell>)
    ensures
        ({
            let entries = spec_container_shells(
                match docker_output {
                    Some(o) => Some(o@),
                    None => None,
                },
                match podman_output {
                    Some(o) => Some(o@),
                    None => None,
                },
                match distrobox_output {
                    Some(o) => Some(o@),
                    None => None,
                },
            );
            &&& r@.len() == entries.len()
            &&& forall|q: int|
                0 <= q < entries.len() ==> (#[trigger] r@[q]).name@ == entries[q].0 && r@[
                    q
                ].command@ == entries[q].1
        }),
{
    let mut shells: Vec<DetectedShell> = Vec::new();
    match docker_output {
        Some(output) => {
            push_runtime_entries(&mut shells, output, "[Docker] ", "docker exec -it ", " /bin/sh");
        },
        None => {},
    }
    let ghost after_docker = shells@;
    match podman_output {
        Some(output) => {
            push_runtime_entries(&mut shells, output, "[Podman] ", "podman exec -it ", " /bin/sh");
        },
        None => {},
    }
    let ghost after_podman = shells@;
    match distrobox_output {
        Some(output) => {
            let lines = split_lines(output);
            let ghost all_lines = spec_lines(output@);
            let n = lines.len();
            let mut i: usize = 1;
            proof {
                if all_lines.len() > 0 {
                    assert(all_lines.drop_first().take(0) =~= Seq::<Seq<char>>::empty());
                }
            }
            while i < n
                invariant
                    n == lines@.len(),
                    1 <= i <= n || (n == 0 && i == 1),
                    all_lines.len() == n,
                    forall|q: int| 0 <= q < n ==> (#[trigger] lines@[q])@ == all_lines[q],
                    forall|q: int| 0 <= q < after_podman.len() ==> shells@[q] == after_podman[q],
                    n > 0 ==> ({
                        let entries = spec_distrobox_entries(all_lines.drop_first().take(i - 1));
                        &&& shells@.len() == after_podman.len() + entries.len()
                        &&& forall|q: int|
                            after_podman.len() <= q < shells@.len() ==> (#[trigger] shells@[
                                q
                            ]).name@ == entries[q - after_podman.len()].0 && shells@[q].command@
                                == entries[q - after_podman.len()].1
                    }),
                    n == 0 ==> shells@ == after_podman,
                decreases n - i,
            {
                proof {
                    reveal_with_fuel(spec_distrobox_entries, 3);
                    let tail = all_lines.drop_first();
                    assert(tail.take(i as int) =~= tail.take(i - 1) + seq![tail[i - 1]]);
                    lemma_distrobox_entries_concat(tail.take(i - 1), seq![tail[i - 1]]);
                    assert(seq![tail[i - 1]].drop_first() =~= Seq::<Seq<char>>::empty());
                    assert(tail[i - 1] == all_lines[i as int]);
                }
                let parts = split_char(lines[i].as_str(), '|');
                if parts.len() >= 2 {
                    let trimmed = trim(parts[1].as_str());
                    let header = String::from_str("NAME");
                    let trimmed_owned = String::from_str(trimmed);
                    if trimmed.unicode_len() > 0 && !trimmed_owned.eq(&header) {
                        proof {
                            reveal_strlit("NAME");
                        }
                        let name = String::from_str("[Distrobox] ").concat(trimmed);
                        let command = String::from_str("distrobox enter ").concat(trimmed);
                        shells.push(DetectedShell { name, command });
                    } else {
                        proof {
                            reveal_strlit("NAME");
                        }
                    }
                }
                i = i + 1;
            }
            proof {
                if n > 0 {
                    assert(all_lines.drop_first().take(n - 1) =~= all_lines.drop_first());
                }
            }
        },
        None => {},
    }
    proof {
        let d = match docker_output {
            Some(o) => spec_runtime_entries(
                spec_lines(o@),
                "[Docker] "@,
                "docker exec -it "@,
                " /bin/sh"@,
            ),
            None => Seq::empty(),
        };
        let p = match podman_output {
            Some(o) => spec_runtime_entries(
                spec_lines(o@),
                "[Podman] "@,
                "podman exec -it "@,
                " /bin/sh"@,
            ),
            None => Seq::empty(),
        };
        let b = match distrobox_output {
            Some(o) => ({
                let lines = spec_lines(o@);
                if lines.len() > 0 {
                    spec_distrobox_entries(lines.drop_first())
                } else {
                    Seq::<(Seq<char>, Seq<char>)>::empty()
                }
            }),
            None => Seq::empty(),
        };
        assert(after_docker.len() == d.len());
        assert(after_podman.len() == d.len() + p.len());
        assert(shells@.len() == d.len() + p.len() + b.len());
        assert forall|q: int|
            0 <= q < (d + p + b).len() implies (#[trigger] shells@[q]).name@ == (d + p + b)[q].0
            && shells@[q].command@ == (d + p + b)[q].1 by {
            if q < d.len() {
                assert(shells@[q] == after_podman[q] && after_podman[q] == after_docker[q]);
                assert(after_docker[q].name@ == d[q].0 && after_docker[q].command@ == d[q].1);
            } else if q < d.len() + p.len() {
                assert(shells@[q] == after_podman[q]);
                assert(after_podman[q].name@ == p[q - d.len()].0 && after_podman[q].command@ == p[
                    q - d.len()
                ].1);
            } else {
                assert(shells@[q].name@ == b[q - d.len() - p.len()].0 && shells@[q].command@ == b[
                    q - d.len() - p.len()
                ].1);
            }
        }
    }
    shells
}

/// The shell used when no shell was detected at all: always present, never
/// empty.
pub fn fallback_shell() -> (r: String)
    ensures
        r@ == "/bin/sh"@,
        r@.len() > 0,
{
    proof {
        reveal_strlit("/bin/sh");
    }
    String::from_str("/bin/sh")
}

} // verus!
