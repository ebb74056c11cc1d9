//! Shell profiles and the resolution of "what a new tab opens with".
//!
//! A profile names a shell command and an optional working directory. When
//! a tab is opened under a profile name, the name is looked up among the
//! configured profiles; failing that, among the user's ssh hosts (the tab
//! then opens an `ssh` session); failing both, the default shell is used.

use vstd::prelude::*;

verus! {

/// A named shell profile.
pub struct Profile {
    pub name: String,
    pub shell: String,
    pub working_directory: Option<String>,
}

/// Position of the first profile called `name`, if any.
pub open spec fn spec_profile_position(profiles: Seq<Profile>, name: Seq<char>) -> Option<int>
    decreases profiles.len(),
{
    if profiles.len() == 0 {
        None
    } else if profiles[0].name@ == name {
        Some(0)
    } else {
        match spec_profile_position(profiles.drop_first(), name) {
            Some(i) => Some(1 + i),
            None => None,
        }
    }
}

/// What `spec_profile_position` finds: the first position carrying the
/// name, or nothing anywhere.
pub proof fn lemma_profile_position(profiles: Seq<Profile>, name: Seq<char>)
    ensures
        match spec_profile_position(profiles, name) {
            Some(p) => 0 <= p < profiles.len() && profiles[p].name@ == name && forall|q: int|
                0 <= q < p ==> (#[trigger] profiles[q]).name@ != name,
            None => forall|q: int|
                0 <= q < profiles.len() ==> (#[trigger] profiles[q]).name@ != name,
        },
    decreases profiles.len(),
{
    if profiles.len() > 0 {
        lemma_profile_position(profiles.drop_first(), name);
        assert forall|q: int| 1 <= q < profiles.len() implies profiles.drop_first()[q - 1] == (
        #[trigger] profiles[q]) by {}
    }
}

/// Position of the first profile called `name`, if any.
pub fn get_profile(profiles: &Vec<Profile>, name: &str) -> (r: Option<usize>)
    ensures
        (r is Some) == (spec_profile_position(profiles@, name@) is Some),
        r matches Some(p) ==> spec_profile_position(profiles@, name@) == Some(p as int) && p
            < profiles@.len(),
{
    proof {
        lemma_profile_position(profiles@, name@);
    }
    let name_owned = String::from_str(name);
    let n = profiles.len();
    let mut i: usize = 0;
    while i < n
        invariant
            n == profiles.len(),
            i <= n,
            name_owned@ == name@,
            forall|q: int| 0 <= q < i ==> (#[trigger] profiles@[q]).name@ != name@,
            match spec_profile_position(profiles@, name@) {
                Some(p) => 0 <= p < n && profiles@[p].name@ == name@ && forall|q: int|
                    0 <= q < p ==> (#[trigger] profiles@[q]).name@ != name@,
                None => forall|q: int| 0 <= q < n ==> (#[trigger] profiles@[q]).name@ != name@,
            },
        decreases n - i,
    {
        if profiles[i].name.eq(&name_owned) {
            return Some(i);
        }
        i = i + 1;
    }
    None
}

/// Position of the profile a new tab opens with when no profile is named:
/// the profile called `default_name` when one is configured and found,
/// otherwise the first profile; `None` when there are no profiles at all.
pub open spec fn spec_default_profile_position(
    profiles: Seq<Profile>,
    default_name: Option<String>,
) -> Option<int> {
    if profiles.len() == 0 {
        None
    } else {
        match default_name {
            Some(name) => match spec_profile_position(profiles, name@) {
                Some(p) => Some(p),
                None => Some(0),
            },
            None => Some(0),
        }
    }
}

/// Position of the default profile, as `spec_default_profile_position`
/// names it.
pub fn get_default_profile(profiles: &Vec<Profile>, default_name: &Option<String>) -> (r: Option<
    usize,
>)
    ensures
        (r is Some) == (spec_default_profile_position(profiles@, *default_name) is Some),
        r matches Some(p) ==> spec_default_profile_position(profiles@, *default_name) == Some(
            p as int,
        ) && p < profiles@.len(),
{
    proof {
        match default_name {
            Some(name) => {
                lemma_profile_position(profiles@, name@);
            },
            None => {
            },
        }
    }
    if profiles.len() == 0 {
        return None;
    }
    match default_name {
        Some(name) => match get_profile(profiles, name.as_str()) {
            Some(p) => Some(p),
            None => Some(0),
        },
        None => Some(0),
    }
}

/// The shell a new tab opens with when no profile is named: the default
/// profile's shell when there is one, otherwise the login shell from the
/// environment, otherwise the platform fallback the caller supplies.
pub fn get_shell(
    profiles: &Vec<Profile>,
    default_name: &Option<String>,
    env_shell: Option<String>,
    os_fallback: &str,
) -> (r: String)
    ensures
        r@ == match spec_default_profile_position(profiles@, *default_name) {
            Some(p) => profiles@[p].shell@,
            None => match env_shell {
                Some(s) => s@,
                None => os_fallback@,
            },
        },
{
    match get_default_profile(profiles, default_name) {
        Some(p) => profiles[p].shell.clone(),
        None => match env_shell {
            Some(s) => s,
            None => String::from_str(os_fallback),
        },
    }
}

/// The trailing path segment: what follows the last `/`, or the whole
/// string when there is none.
pub open spec fn spec_file_name(p: Seq<char>) -> Seq<char> {
    match p.index_of_last('/') {
        Some(i) => p.subrange(i + 1, p.len() as int),
        None => p,
    }
}

/// The stem of the trailing path segment: the segment up to its last `.`,
/// except that a leading `.` never starts an extension. An empty segment
/// and the two relative-path segments have no stem.
pub open spec fn spec_file_stem(p: Seq<char>) -> Option<Seq<char>> {
    let name = spec_file_name(p);
    if name.len() == 0 || name == seq!['.'] || name == seq!['.', '.'] {
        None
    } else {
        match name.index_of_last('.') {
            Some(i) => if i > 0 {
                Some(name.subrange(0, i))
            } else {
                Some(name)
            },
            None => Some(name),
        }
    }
}

/// The stem when the path has one, the whole path otherwise: what the
/// short display name of a shell is derived from.
pub open spec fn spec_stem_or_self(p: Seq<char>) -> Seq<char> {
    match spec_file_stem(p) {
        Some(s) => s,
        None => p,
    }
}

/// Index of the last occurrence of `c`, if any.
fn find_last_char(s: &str, c: char) -> (r: Option<usize>)
    ensures
        r == match s@.index_of_last(c) {
            Some(i) => Some(i as usize),
            None => None::<usize>,
        },
{
    proof {
        s@.index_of_last_ensures(c);
    }
    let n = s.unicode_len();
    let mut i: usize = 0;
    let mut last: Option<usize> = None;
    while i < n
        invariant
            n == s@.len(),
            i <= n,
            match last {
                Some(l) => l < i && s@[l as int] == c && forall|q: int|
                    l < q < i ==> s@[q] != c,
                None => forall|q: int| 0 <= q < i ==> s@[q] != c,
            },
        decreases n - i,
    {
        if s.get_char(i) == c {
            last = Some(i);
        }
        i = i + 1;
    }
    proof {
        match last {
            Some(l) => {
                assert(s@.index_of_last(c) is Some);
                let w = s@.index_of_last(c)->Some_0;
                if w != l as int {
                    assert(s@[w] == c);
                }
            },
            None => {
                if s@.index_of_last(c) is Some {
                    assert(s@[s@.index_of_last(c)->Some_0] == c);
                }
            },
        }
    }
    last
}

/// The stem of the trailing path segment of `path`, as
/// [`spec_file_stem`] describes it.
pub fn file_stem(path: &str) -> (r: Option<&str>)
    ensures
        r matches Some(s) <==> spec_file_stem(path@) is Some,
        r matches Some(s) ==> s@ == spec_file_stem(path@)->Some_0,
{
    let n = path.unicode_len();
    proof {
        path@.index_of_last_ensures('/');
    }
    let name_start: usize = match find_last_char(path, '/') {
        Some(i) => i + 1,
        None => 0,
    };
    let name = path.substring_char(name_start, n);
    proof {
        assert(name@ == spec_file_name(path@));
    }
    let name_len = name.unicode_len();
    if name_len == 0 {
        return None;
    }
    if name_len == 1 && name.get_char(0) == '.' {
        proof {
            assert(name@ =~= seq!['.']);
        }
        return None;
    }
    if name_len == 2 && name.get_char(0) == '.' && name.get_char(1) == '.' {
        proof {
            assert(name@ =~= seq!['.', '.']);
        }
        return None;
    }
    proof {
        assert(name@ != seq!['.'] && name@ != seq!['.', '.']) by {
            if name@ == seq!['.'] {
                assert(name@.len() == 1 && name@[0] == '.');
            }
            if name@ == seq!['.', '.'] {
                assert(name@.len() == 2 && name@[0] == '.' && name@[1] == '.');
            }
        }
    }
    proof {
        name@.index_of_last_ensures('.');
    }
    match find_last_char(name, '.') {
        Some(i) => if i > 0 {
            Some(name.substring_char(0, i))
        } else {
            Some(name)
        },
        None => Some(name),
    }
}

/// The whitespace-separated fields of `s`, with `taken` the field read so
/// far: runs of white space separate fields and leave no empty ones.
pub open spec fn spec_fields_from(s: Seq<char>, taken: Seq<char>) -> Seq<Seq<char>>
    decreases s.len(),
{
    if s.len() == 0 {
        if taken.len() == 0 {
            Seq::empty()
        } else {
            seq![taken]
        }
    } else if crate::text::is_space_char(s[0]) {
        if taken.len() == 0 {
            spec_fields_from(s.drop_first(), Seq::empty())
        } else {
            seq![taken] + spec_fields_from(s.drop_first(), Seq::empty())
        }
    } else {
        spec_fields_from(s.drop_first(), taken.push(s[0]))
    }
}

/// The whitespace-separated fields of `s`, as `str::split_whitespace`
/// yields them.
pub open spec fn spec_fields(s: Seq<char>) -> Seq<Seq<char>> {
    spec_fields_from(s, Seq::empty())
}

/// The whitespace-separated fields of `s`.
pub fn split_fields(s: &str) -> (r: Vec<String>)
    ensures
        r@.len() == spec_fields(s@).len(),
        forall|q: int| 0 <= q < r@.len() ==> (#[trigger] r@[q])@ == spec_fields(s@)[q],
{
    let n = s.unicode_len();
    let mut out: Vec<String> = Vec::new();
    let mut i: usize = 0;
    let mut word_start: usize = 0;
    let mut in_word = false;
    proof {
        assert(s@.subrange(0, n as int) =~= s@);
        assert(crate::text::spec_string_views(out@) =~= Seq::<Seq<char>>::empty());
        assert(crate::text::spec_string_views(out@) + spec_fields_from(s@, Seq::empty())
            =~= spec_fields_from(s@, Seq::empty()));
    }
    while i < n
        invariant
            n == s@.len(),
            i <= n,
            in_word ==> word_start < i,
            in_word ==> forall|q: int|
                word_start <= q < i ==> !crate::text::is_space_char(#[trigger] s@[q]),
            ({
                let taken: Seq<char> = if in_word {
                    s@.subrange(word_start as int, i as int)
                } else {
                    Seq::empty()
                };
                spec_fields(s@) == crate::text::spec_string_views(out@) + spec_fields_from(
                    s@.subrange(i as int, n as int),
                    taken,
                )
            }),
        decreases n - i,
    {
        let ghost pre_out = out@;
        let ghost rest = s@.subrange(i as int, n as int);
        let ghost pre_taken: Seq<char> = if in_word {
            s@.subrange(word_start as int, i as int)
        } else {
            Seq::empty()
        };
        let c = s.get_char(i);
        if crate::text::char_is_space(c) {
            if in_word {
                let word = s.substring_char(word_start, i);
                out.push(String::from_str(word));
                in_word = false;
            }
        } else {
            if !in_word {
                word_start = i;
                in_word = true;
            }
        }
        i = i + 1;
        proof {
            assert(rest[0] == c);
            assert(rest.drop_first() =~= s@.subrange(i as int, n as int));
            if crate::text::is_space_char(c) {
                if pre_taken.len() > 0 {
                    assert(spec_fields_from(rest, pre_taken) == seq![pre_taken]
                        + spec_fields_from(rest.drop_first(), Seq::empty()));
                    assert(crate::text::spec_string_views(out@)
                        =~= crate::text::spec_string_views(pre_out) + seq![pre_taken]);
                    assert(crate::text::spec_string_views(pre_out) + seq![pre_taken]
                        + spec_fields_from(rest.drop_first(), Seq::empty())
                        =~= crate::text::spec_string_views(pre_out) + (seq![pre_taken]
                        + spec_fields_from(rest.drop_first(), Seq::empty())));
                }
            } else {
                assert(spec_fields_from(rest, pre_taken) == spec_fields_from(
                    rest.drop_first(),
                    pre_taken.push(c),
                ));
                assert(s@.subrange(word_start as int, i as int) =~= pre_taken.push(c));
            }
        }
    }
    if in_word {
        let ghost pre = out@;
        let word = s.substring_char(word_start, n);
        out.push(String::from_str(word));
        proof {
            assert(s@.subrange(n as int, n as int) =~= Seq::<char>::empty());
            assert(crate::text::spec_string_views(out@) =~= crate::text::spec_string_views(pre)
                + seq![s@.subrange(word_start as int, n as int)]);
            assert(spec_fields(s@) =~= crate::text::spec_string_views(out@));
        }
    } else {
        proof {
            assert(s@.subrange(n as int, n as int) =~= Seq::<char>::empty());
            assert(spec_fields(s@) =~= crate::text::spec_string_views(out@));
        }
    }
    proof {
        assert forall|q: int| 0 <= q < out@.len() implies (#[trigger] out@[q])@ == spec_fields(
            s@,
        )[q] by {
            assert(crate::text::spec_string_views(out@)[q] == out@[q]@);
        }
        assert(out@.len() == crate::text::spec_string_views(out@).len());
    }
    out
}

/// Whether some string of the list reads `s`.
pub open spec fn spec_contains_string(v: Seq<String>, s: Seq<char>) -> bool {
    exists|i: int| 0 <= i < v.len() && (#[trigger] v[i])@ == s
}

/// Whether some string of the list reads `s`.
pub fn contains_string(v: &Vec<String>, s: &str) -> (r: bool)
    ensures
        r == spec_contains_string(v@, s@),
{
    let s_owned = String::from_str(s);
    let n = v.len();
    let mut i: usize = 0;
    while i < n
        invariant
            n == v.len(),
            i <= n,
            s_owned@ == s@,
            forall|q: int| 0 <= q < i ==> (#[trigger] v@[q])@ != s@,
        decreases n - i,
    {
        if v[i].eq(&s_owned) {
            proof {
                assert(v@[i as int]@ == s@);
            }
            return true;
        }
        i = i + 1;
    }
    false
}

/// Whether `s` holds the character `c`.
pub fn contains_char(s: &str, c: char) -> (r: bool)
    ensures
        r == s@.contains(c),
{
    proof {
        s@.index_of_first_ensures(c);
    }
    match crate::text::find_first_char(s, c) {
        Some(_) => {
            proof {
                let w = s@.index_of_first(c)->Some_0;
                assert(s@[w] == c);
            }
            true
        },
        None => false,
    }
}

/// The fields that name concrete hosts: those without the pattern
/// characters `*`, `?` and `!`.
pub open spec fn spec_concrete_hosts(fields: Seq<Seq<char>>) -> Seq<Seq<char>>
    decreases fields.len(),
{
    if fields.len() == 0 {
        Seq::empty()
    } else {
        let f = fields[0];
        let rest = spec_concrete_hosts(fields.drop_first());
        if !f.contains('*') && !f.contains('?') && !f.contains('!') {
            seq![f] + rest
        } else {
            rest
        }
    }
}

/// Selecting concrete hosts distributes over concatenation.
proof fn lemma_concrete_hosts_concat(l1: Seq<Seq<char>>, l2: Seq<Seq<char>>)
    ensures
        spec_concrete_hosts(l1 + l2) == spec_concrete_hosts(l1) + spec_concrete_hosts(l2),
    decreases l1.len(),
{
    if l1.len() == 0 {
        assert(l1 + l2 =~= l2);
        assert(spec_concrete_hosts(l1) + spec_concrete_hosts(l2) =~= spec_concrete_hosts(l2));
    } else {
        assert((l1 + l2).drop_first() =~= l1.drop_first() + l2);
        lemma_concrete_hosts_concat(l1.drop_first(), l2);
        assert(spec_concrete_hosts(l1 + l2) =~= spec_concrete_hosts(l1) + spec_concrete_hosts(
            l2,
        ));
    }
}

/// The host names one line of an ssh configuration contributes: on a line
/// whose lowercase form begins `host `, every field after the keyword that
/// holds no pattern character; nothing on any other line.
pub open spec fn spec_ssh_hosts_of_line(line: Seq<char>) -> Seq<Seq<char>> {
    let t = crate::text::spec_trim(line);
    if crate::text::spec_is_prefix("host "@, lower_of(t)) {
        let fields = spec_fields(t);
        if fields.len() >= 1 {
            spec_concrete_hosts(fields.drop_first())
        } else {
            Seq::empty()
        }
    } else {
        Seq::empty()
    }
}

/// The host names of an ssh configuration, line by line.
pub open spec fn spec_ssh_hosts_of_lines(lines: Seq<Seq<char>>) -> Seq<Seq<char>>
    decreases lines.len(),
{
    if lines.len() == 0 {
        Seq::empty()
    } else {
        spec_ssh_hosts_of_line(lines[0]) + spec_ssh_hosts_of_lines(lines.drop_first())
    }
}

/// Reading host names distributes over concatenation of line lists.
proof fn lemma_ssh_hosts_concat(l1: Seq<Seq<char>>, l2: Seq<Seq<char>>)
    ensures
        spec_ssh_hosts_of_lines(l1 + l2) == spec_ssh_hosts_of_lines(l1) + spec_ssh_hosts_of_lines(
            l2,
        ),
    decreases l1.len(),
{
    if l1.len() == 0 {
        assert(l1 + l2 =~= l2);
        assert(spec_ssh_hosts_of_lines(l1) + spec_ssh_hosts_of_lines(l2)
            =~= spec_ssh_hosts_of_lines(l2));
    } else {
        assert((l1 + l2).drop_first() =~= l1.drop_first() + l2);
        lemma_ssh_hosts_concat(l1.drop_first(), l2);
        assert(spec_ssh_hosts_of_lines(l1 + l2) =~= spec_ssh_hosts_of_lines(l1)
            + spec_ssh_hosts_of_lines(l2));
    }
}

/// The host names declared in the given ssh configuration text: for every
/// `Host` line (matched case-insensitively), the named hosts that hold no
/// pattern character. The caller reads the configuration file.
pub fn get_ssh_hosts(content: &str) -> (r: Vec<String>)
    ensures
        ({
            let hosts = spec_ssh_hosts_of_lines(crate::text::spec_lines(content@));
            &&& r@.len() == hosts.len()
            &&& forall|q: int| 0 <= q < r@.len() ==> (#[trigger] r@[q])@ == hosts[q]
        }),
{
    let lines = crate::text::split_lines(content);
    let ghost all_lines = crate::text::spec_lines(content@);
    let mut out: Vec<String> = Vec::new();
    let n = lines.len();
    let mut i: usize = 0;
    while i < n
        invariant
            n == lines@.len(),
            i <= n,
            all_lines.len() == n,
            forall|q: int| 0 <= q < n ==> (#[trigger] lines@[q])@ == all_lines[q],
            out@.len() == spec_ssh_hosts_of_lines(all_lines.take(i as int)).len(),
            forall|q: int|
                0 <= q < out@.len() ==> (#[trigger] out@[q])@ == spec_ssh_hosts_of_lines(
                    all_lines.take(i as int),
                )[q],
        decreases n - i,
    {
        let ghost pre_entries = out@;
        proof {
            reveal_with_fuel(spec_ssh_hosts_of_lines, 3);
            assert(all_lines.take(i + 1) =~= all_lines.take(i as int) + seq![all_lines[i as int]]);
            lemma_ssh_hosts_concat(all_lines.take(i as int), seq![all_lines[i as int]]);
            assert(seq![all_lines[i as int]].drop_first() =~= Seq::<Seq<char>>::empty());
        }
        let trimmed = crate::text::trim(lines[i].as_str());
        let lowered = to_lowercase(trimmed);
        if crate::text::starts_with_str(lowered.as_str(), "host ") {
            let fields = split_fields(trimmed);
            let ghost line_fields = spec_fields(trimmed@);
            if fields.len() >= 1 {
                let ghost base = pre_entries;
                proof {
                    reveal_with_fuel(spec_concrete_hosts, 2);
                    assert(line_fields.drop_first().take(0) =~= Seq::<Seq<char>>::empty());
                }
                let m = fields.len();
                let mut k: usize = 1;
                while k < m
                    invariant
                        m == fields@.len(),
                        m == line_fields.len(),
                        m >= 1,
                        1 <= k <= m,
                        forall|q: int| 0 <= q < m ==> (#[trigger] fields@[q])@ == line_fields[q],
                        out@.len() == base.len() + spec_concrete_hosts(
                            line_fields.drop_first().take(k - 1),
                        ).len(),
                        forall|q: int| 0 <= q < base.len() ==> out@[q] == base[q],
                        forall|q: int|
                            base.len() <= q < out@.len() ==> (#[trigger] out@[q])@
                                == spec_concrete_hosts(line_fields.drop_first().take(k - 1))[q
                                - base.len()],
                    decreases m - k,
                {
                    proof {
                        reveal_with_fuel(spec_concrete_hosts, 3);
                        let tail = line_fields.drop_first();
                        assert(tail.take(k as int) =~= tail.take(k - 1) + seq![tail[k - 1]]);
                        lemma_concrete_hosts_concat(tail.take(k - 1), seq![tail[k - 1]]);
                        assert(seq![tail[k - 1]].drop_first() =~= Seq::<Seq<char>>::empty());
                        assert(tail[k - 1] == line_fields[k as int]);
                    }
                    let part = fields[k].as_str();
                    if !contains_char(part, '*') && !contains_char(part, '?') && !contains_char(
                        part,
                        '!',
                    ) {
                        out.push(String::from_str(part));
                    }
                    k = k + 1;
                }
                proof {
                    assert(line_fields.drop_first().take(m - 1) =~= line_fields.drop_first());
                }
            }
        }
        proof {
            let added = spec_ssh_hosts_of_line(all_lines[i as int]);
            assert(out@.len() == pre_entries.len() + added.len());
            assert forall|q: int|
                0 <= q < out@.len() implies (#[trigger] out@[q])@ == spec_ssh_hosts_of_lines(
                all_lines.take(i + 1),
            )[q] by {
                if q < pre_entries.len() {
                    assert(out@[q] == pre_entries[q]);
                    assert(pre_entries[q]@ == spec_ssh_hosts_of_lines(
                        all_lines.take(i as int),
                    )[q]);
                } else {
                    assert(out@[q]@ == added[q - pre_entries.len()]);
                }
            }
        }
        i = i + 1;
    }
    proof {
        assert(all_lines.take(n as int) =~= all_lines);
    }
    out
}

/// The lowercase form of a string, as `str::to_lowercase` computes it: a
/// function of the characters alone.
pub uninterp spec fn lower_of(s: Seq<char>) -> Seq<char>;

/// Relies on str::to_lowercase: the result depends on the characters of
/// the input alone, and an empty string stays empty.
#[verifier::external_body]
pub fn to_lowercase(s: &str) -> (r: String)
    ensures
        r@ == lower_of(s@),
        s@.len() == 0 ==> r@.len() == 0,
{
    s.to_lowercase()
}

/// The short display name of the shell at `path`: the lowercase form of
/// the stem of its trailing path segment, or of the whole path when it has
/// no stem.
pub fn shell_display_name(path: &str) -> (r: String)
    ensures
        r@ == lower_of(spec_stem_or_self(path@)),
{
    match file_stem(path) {
        Some(s) => to_lowercase(s),
        None => to_lowercase(path),
    }
}

/// How the pieces a tab opens with follow from a requested profile name:
/// a known profile name opens its shell (and chooses its working directory
/// when the caller supplies none); an unknown name that is an ssh host
/// opens `ssh <name>`; any other name, and no name at all, opens the
/// default shell. The title is the profile name, or the shell's display
/// name when no profile was named; the display name is always the
/// lowercase stem of the shell command.
pub open spec fn spec_resolution(
    profile_name: Option<Seq<char>>,
    working_directory: Option<String>,
    profiles: Seq<Profile>,
    ssh_hosts: Seq<String>,
    default_shell: Seq<char>,
    title: Seq<char>,
    shell_path: Seq<char>,
    shell_name: Seq<char>,
    args: Seq<String>,
    chosen_wd: Option<String>,
) -> bool {
    &&& shell_name == lower_of(spec_stem_or_self(shell_path))
    &&& match profile_name {
        None => {
            &&& title == shell_name
            &&& shell_path == default_shell
            &&& args.len() == 0
            &&& chosen_wd == working_directory
        },
        Some(name) => {
            &&& title == name
            &&& match spec_profile_position(profiles, name) {
                Some(p) => {
                    &&& shell_path == profiles[p].shell@
                    &&& args.len() == 0
                    &&& chosen_wd == (if working_directory is Some {
                        working_directory
                    } else {
                        profiles[p].working_directory
                    })
                },
                None => {
                    if spec_contains_string(ssh_hosts, name) {
                        &&& shell_path == "ssh"@
                        &&& args.len() == 1 && args[0]@ == name
                        &&& chosen_wd == working_directory
                    } else {
                        &&& shell_path == default_shell
                        &&& args.len() == 0
                        &&& chosen_wd == working_directory
                    }
                },
            }
        },
    }
}

} // verus!
