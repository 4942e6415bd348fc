//! The container runtimes a client can sanitize documents with, the choice
//! of one among those installed, and the command lines it is run with.
use vstd::prelude::*;
use crate::text::{push_str, same_text};

verus! {

/// A container runtime program and how to call it.
pub struct ContainerProgram<'a> {
    pub exec_path: String,
    pub sub_commands: Vec<&'a str>,
    pub suggested_run_args: Vec<&'a str>,
    pub suggested_tmp_dir: Option<String>,
}

impl<'a> ContainerProgram<'a> {
    pub fn new(exec_path: String, sub_commands: Vec<&'a str>, suggested_run_args: Vec<&'a str>, suggested_tmp_dir: Option<String>) -> (r: Self)
        ensures
            r.exec_path == exec_path,
            r.sub_commands == sub_commands,
            r.suggested_run_args == suggested_run_args,
            r.suggested_tmp_dir == suggested_tmp_dir,
    {
        Self { exec_path, sub_commands, suggested_run_args, suggested_tmp_dir }
    }
}

/// A container runtime to look for: its command, the sub-commands and run
/// arguments it needs, and the folder it can share with containers.
pub struct ContainerProgramStub {
    pub cmd: &'static str,
    pub sub_commands: Vec<&'static str>,
    pub run_args: Vec<&'static str>,
    pub tmp_dir: Option<&'static str>,
}

/// A stub as plain text: command, sub-commands, run arguments, folder.
pub open spec fn stub_view(s: ContainerProgramStub) -> (Seq<char>, Seq<&'static str>, Seq<&'static str>, Option<&'static str>) {
    (s.cmd@, s.sub_commands@, s.run_args@, s.tmp_dir)
}

/// Whether `p` is the program of stub `s` found at `path`.
pub open spec fn program_of_stub(p: ContainerProgram<'static>, s: (Seq<char>, Seq<&'static str>, Seq<&'static str>, Option<&'static str>), path: Seq<char>) -> bool {
    &&& p.exec_path@ == path
    &&& p.sub_commands@ == s.1
    &&& p.suggested_run_args@ == s.2
    &&& match (p.suggested_tmp_dir, s.3) {
        (Some(a), Some(b)) => a@ == b@,
        (None, None) => true,
        _ => false,
    }
}

/// The program of the first stub whose command was found, the places where
/// the commands were found being `found` (`None` where not found).
pub open spec fn first_found(stubs: Seq<(Seq<char>, Seq<&'static str>, Seq<&'static str>, Option<&'static str>)>, found: Seq<Option<Seq<char>>>) -> Option<int>
    decreases stubs.len(),
{
    if stubs.len() == 0 || found.len() == 0 {
        None
    } else if found[0] is Some {
        Some(0)
    } else {
        match first_found(stubs.drop_first(), found.drop_first()) {
            Some(i) => Some(i + 1),
            None => None,
        }
    }
}

/// `which::which`: where the executable `exe_name` is found in the search
/// path. What is found depends on the machine: nothing is stated of it.
#[verifier::external_body]
pub fn executable_find(exe_name: &str) -> (r: Option<String>)
{
    match which::which(exe_name) {
        Ok(p) => Some(p.display().to_string()),
        Err(_) => None,
    }
}

fn make_stub(cmd: &'static str, sub_commands: Vec<&'static str>, run_args: Vec<&'static str>, tmp_dir: Option<&'static str>) -> (r: ContainerProgramStub)
    ensures
        r.cmd == cmd,
        r.sub_commands == sub_commands,
        r.run_args == run_args,
        r.tmp_dir == tmp_dir,
{
    ContainerProgramStub { cmd, sub_commands, run_args, tmp_dir }
}


/// Looks for the container runtime `exe_name` in the `PATH`, as
/// `executable_find` does; which program is found depends on the machine,
/// so nothing is stated of it.
pub fn crt_executable_find(exe_name: &str) -> (r: Option<String>)
{
    executable_find(exe_name)
}

/// The program of stub `stub` found at `path`.
pub fn program_from_stub(stub: &ContainerProgramStub, path: String) -> (r: ContainerProgram<'static>)
    ensures
        program_of_stub(r, stub_view(*stub), path@),
{
    let tmp = match stub.tmp_dir {
        Some(d) => {
            let mut t = String::new();
            push_str(&mut t, d);
            Some(t)
        },
        None => None,
    };
    ContainerProgram::new(path, stub.sub_commands.clone(), stub.suggested_args_copy(), tmp)
}

impl ContainerProgramStub {
    fn suggested_args_copy(&self) -> (r: Vec<&'static str>)
        ensures
            r@ == self.run_args@,
    {
        self.run_args.clone()
    }
}

/// The stubs as plain text.
pub open spec fn stub_views(stubs: Seq<ContainerProgramStub>) -> Seq<(Seq<char>, Seq<&'static str>, Seq<&'static str>, Option<&'static str>)> {
    stubs.map_values(|s: ContainerProgramStub| stub_view(s))
}

/// The lookup results as plain text.
pub open spec fn found_views(found: Seq<Option<String>>) -> Seq<Option<Seq<char>>> {
    found.map_values(|f: Option<String>| match f { Some(p) => Some(p@), None => None })
}

/// Whether `r` is what looking up the commands of `stubs` in turn gives,
/// the lookups having given `found`: they stop at the first command found,
/// whose stub's program, found there, is the result; there is no result
/// exactly where every command was looked up and none was found.
pub open spec fn lookup_outcome(
    stubs: Seq<(Seq<char>, Seq<&'static str>, Seq<&'static str>, Option<&'static str>)>,
    found: Seq<Option<Seq<char>>>,
    r: Option<ContainerProgram<'static>>,
) -> bool {
    &&& found.len() <= stubs.len()
    &&& forall|k: int| 0 <= k < found.len() - 1 ==> #[trigger] found[k] is None
    &&& (found.len() < stubs.len() ==> found.len() > 0 && found[found.len() - 1] is Some)
    &&& match first_found(stubs, found) {
        Some(i) => r matches Some(p) && program_of_stub(p, stubs[i], found[i]->0),
        None => r is None,
    }
    &&& (r is None <==> (found.len() == stubs.len() && forall|k: int| 0 <= k < found.len() ==> #[trigger] found[k] is None))
}

proof fn lemma_first_found_prefix(
    stubs: Seq<(Seq<char>, Seq<&'static str>, Seq<&'static str>, Option<&'static str>)>,
    found: Seq<Option<Seq<char>>>,
)
    requires
        found.len() <= stubs.len(),
        forall|k: int| 0 <= k < found.len() - 1 ==> #[trigger] found[k] is None,
    ensures
        found.len() > 0 && found[found.len() - 1] is Some ==> first_found(stubs, found) == Some(found.len() - 1),
        !(found.len() > 0 && found[found.len() - 1] is Some) ==> first_found(stubs, found) is None,
    decreases found.len(),
{
    if found.len() > 1 {
        assert(found[0] is None);
        let f2 = found.drop_first();
        assert forall|k: int| 0 <= k < f2.len() - 1 implies #[trigger] f2[k] is None by {
            assert(f2[k] == found[k + 1]);
        }
        lemma_first_found_prefix(stubs.drop_first(), f2);
        assert(f2[f2.len() - 1] == found[found.len() - 1]);
    } else if found.len() == 1 {
        assert(found.drop_first().len() == 0);
        assert(first_found(stubs.drop_first(), found.drop_first()) is None);
    }
}

/// The program of the first stub whose command was found, `found[i]` being
/// where the command of `stubs[i]` was found.
pub fn choose_runtime(stubs: &Vec<ContainerProgramStub>, found: &Vec<Option<String>>) -> (r: Option<ContainerProgram<'static>>)
    ensures
        match first_found(stub_views(stubs@), found_views(found@)) {
            Some(i) => r matches Some(p) && program_of_stub(p, stub_view(stubs@[i]), found@[i]->0@),
            None => r is None,
        },
{
    let ghost sv = stub_views(stubs@);
    let ghost fv = found_views(found@);
    let mut i: usize = 0;
    assert(sv.subrange(0, sv.len() as int) == sv);
    assert(fv.subrange(0, fv.len() as int) == fv);
    while i < stubs.len() && i < found.len()
        invariant
            i <= stubs@.len(),
            i <= found@.len(),
            sv == stub_views(stubs@),
            fv == found_views(found@),
            forall|k: int| 0 <= k < i ==> found@[k] is None,
            first_found(sv, fv) == match first_found(sv.subrange(i as int, sv.len() as int), fv.subrange(i as int, fv.len() as int)) {
                Some(j) => Some(j + i),
                None => None,
            },
        decreases stubs.len() - i,
    {
        let ghost s2 = sv.subrange(i as int, sv.len() as int);
        let ghost f2 = fv.subrange(i as int, fv.len() as int);
        assert(f2[0] == fv[i as int]);
        match &found[i] {
            Some(path) => {
                return Some(program_from_stub(&stubs[i], path.clone()));
            },
            None => {
                assert(s2.drop_first() == sv.subrange(i + 1, sv.len() as int));
                assert(f2.drop_first() == fv.subrange(i + 1, fv.len() as int));
            },
        }
        i = i + 1;
    }
    None
}

/// The program of the first stub of `stubs` whose command is found in the
/// `PATH`, the commands being looked up in turn until one is found.
pub fn first_installed_runtime(stubs: &Vec<ContainerProgramStub>) -> (r: Option<ContainerProgram<'static>>)
    ensures
        exists|found: Seq<Option<Seq<char>>>| #[trigger] lookup_outcome(stub_views(stubs@), found, r),
{
    let mut found: Vec<Option<String>> = Vec::new();
    let mut hit = false;
    let mut i: usize = 0;
    while i < stubs.len() && !hit
        invariant
            i <= stubs@.len(),
            found@.len() == i,
            hit ==> i > 0 && found@[i - 1] is Some,
            forall|k: int| 0 <= k < i && !(hit && k == i - 1) ==> #[trigger] found@[k] is None,
        decreases stubs.len() - i,
    {
        let f = crt_executable_find(stubs[i].cmd);
        hit = f.is_some();
        found.push(f);
        i = i + 1;
    }
    let r = choose_runtime(stubs, &found);
    proof {
        let sv = stub_views(stubs@);
        let fv = found_views(found@);
        assert(fv.len() == found@.len());
        assert forall|k: int| 0 <= k < fv.len() - 1 implies #[trigger] fv[k] is None by {
            assert(found@[k] is None);
        }
        lemma_first_found_prefix(sv, fv);
        if hit {
            assert(fv[fv.len() - 1] is Some);
        } else {
            assert forall|k: int| 0 <= k < fv.len() implies #[trigger] fv[k] is None by {
                assert(found@[k] is None);
            }
        }
        if r is None && !hit {
            assert(i == stubs@.len());
        }
        assert(lookup_outcome(sv, fv, r));
    }
    r
}

/// The runtimes the desktop client looks for, in order: Docker, Podman and
/// nerdctl, each with the arguments that harden its containers; only Podman,
/// set up for gVisor, where gVisor is enabled.
pub fn desktop_runtime_stubs(gvisor_enabled: bool) -> (r: Vec<ContainerProgramStub>)
    ensures
        !gvisor_enabled ==> r@.len() == 3
            && r@[0].cmd@ == "docker"@ && r@[0].sub_commands@.len() == 0 && r@[0].run_args@ == seq!["--security-opt=no-new-privileges:true"] && r@[0].tmp_dir is None
            && r@[1].cmd@ == "podman"@ && r@[1].sub_commands@.len() == 0 && r@[1].run_args@ == seq!["--userns", "keep-id", "--security-opt", "no-new-privileges"] && r@[1].tmp_dir is None
            && r@[2].cmd@ == "nerdctl"@ && r@[2].sub_commands@.len() == 0 && r@[2].run_args@ == seq!["--security-opt", "no-new-privileges"] && r@[2].tmp_dir is None,
        gvisor_enabled ==> r@.len() == 1
            && r@[0].cmd@ == "podman"@ && r@[0].sub_commands@.len() == 0
            && r@[0].run_args@ == seq!["--security-opt", "no-new-privileges", "--tmpfs", "/loffice:size=5m", "--env", "XDG_CONFIG_HOME=/loffice"]
            && r@[0].tmp_dir is None,
{
    if gvisor_enabled {
        let r = vec![
            make_stub("podman", vec![], vec!["--security-opt", "no-new-privileges", "--tmpfs", "/loffice:size=5m", "--env", "XDG_CONFIG_HOME=/loffice"], None),
        ];
        r
    } else {
        let r = vec![
            make_stub("docker", vec![], vec!["--security-opt=no-new-privileges:true"], None),
            make_stub("podman", vec![], vec!["--userns", "keep-id", "--security-opt", "no-new-privileges"], None),
            make_stub("nerdctl", vec![], vec!["--security-opt", "no-new-privileges"], None),
        ];
        r
    }
}

/// The runtimes the first clients look for, in order: Docker, Podman (with
/// the user namespace kept), Lima (through its `nerdctl` sub-command, sharing
/// `/tmp/lima`), and, where `with_nerdctl`, nerdctl.
pub fn legacy_runtime_stubs(with_nerdctl: bool) -> (r: Vec<ContainerProgramStub>)
    ensures
        r@.len() == if with_nerdctl { 4int } else { 3int },
        r@[0].cmd@ == "docker"@ && r@[0].sub_commands@.len() == 0 && r@[0].run_args@.len() == 0 && r@[0].tmp_dir is None,
        r@[1].cmd@ == "podman"@ && r@[1].sub_commands@.len() == 0 && r@[1].run_args@ == seq!["--userns", "keep-id"] && r@[1].tmp_dir is None,
        r@[2].cmd@ == "lima"@ && r@[2].sub_commands@ == seq!["nerdctl"] && r@[2].run_args@.len() == 0 && r@[2].tmp_dir == Some("/tmp/lima"),
        with_nerdctl ==> r@[3].cmd@ == "nerdctl"@ && r@[3].sub_commands@.len() == 0 && r@[3].run_args@.len() == 0 && r@[3].tmp_dir is None,
{
    let mut r = vec![
        make_stub("docker", vec![], vec![], None),
        make_stub("podman", vec![], vec!["--userns", "keep-id"], None),
        make_stub("lima", vec!["nerdctl"], vec![], Some("/tmp/lima")),
    ];
    if with_nerdctl {
        r.push(make_stub("nerdctl", vec![], vec![], None));
    }
    r
}

/// `str::to_lowercase`: the lower-case form of `s` by Unicode's rules.
pub uninterp spec fn lowercase(s: Seq<char>) -> Seq<char>;

/// Whether every character of `s` is ASCII.
pub open spec fn is_ascii_text(s: Seq<char>) -> bool {
    forall|i: int| 0 <= i < s.len() ==> (#[trigger] s[i] as u32) < 128
}

/// The ASCII lower-case form of the character `c`.
pub open spec fn ascii_lower_char(c: char) -> char {
    if 'A' <= c && c <= 'Z' { ((c as u32) + 32) as char } else { c }
}

/// The ASCII lower-case form of `s`: upper-case ASCII letters lowered, the
/// other characters kept.
pub open spec fn ascii_lower(s: Seq<char>) -> Seq<char> {
    s.map_values(|c: char| ascii_lower_char(c))
}

/// `str::to_lowercase`. Of ASCII text, Unicode's lower-case mapping lowers
/// the letters `A` to `Z` and keeps the other characters, so the result is
/// the ASCII lower-case form; of other text only the name is stated.
#[verifier::external_body]
pub(crate) fn to_lowercase(s: &str) -> (r: String)
    ensures
        r@ == lowercase(s@),
        is_ascii_text(s@) ==> r@ == ascii_lower(s@),
{
    s.to_lowercase()
}

/// Whether the value of `ENTRUSTED_AUTOMATED_GVISOR_ENABLEMENT` enables
/// gVisor: `true` or `yes`, in any case.
pub open spec fn gvisor_enabled_spec(value: Option<Seq<char>>) -> bool {
    match value {
        Some(v) => lowercase(v) == "true"@ || lowercase(v) == "yes"@,
        None => false,
    }
}

/// Whether the value of `ENTRUSTED_AUTOMATED_GVISOR_ENABLEMENT` (`None`
/// where it is unset) enables gVisor.
pub fn gvisor_enabled(value: Option<&str>) -> (b: bool)
    ensures
        b == gvisor_enabled_spec(match value { Some(v) => Some(v@), None => None }),
{
    match value {
        Some(v) => {
            let l = to_lowercase(v);
            same_text(l.as_str(), "true") || same_text(l.as_str(), "yes")
        },
        None => false,
    }
}

/// What the desktop client reads from its environment to choose a runtime.
pub struct RuntimeEnvironment {
    /// The value of `ENTRUSTED_AUTOMATED_GVISOR_ENABLEMENT`, where set.
    pub gvisor_enablement: Option<String>,
    /// Whether `FLATPAK_ID` is set.
    pub flatpak_id_set: bool,
    /// Whether `container` is set.
    pub container_set: bool,
}

impl RuntimeEnvironment {
    /// Whether the environment enables gVisor.
    pub open spec fn gvisor(&self) -> bool {
        gvisor_enabled_spec(match self.gvisor_enablement { Some(v) => Some(v@), None => None })
    }
}

/// The container runtime the desktop client uses: under Flatpak, the
/// `entrusted-container` program where it is found inside a container, and
/// none outside one; otherwise the first runtime found among
/// `desktop_runtime_stubs`.
pub fn desktop_container_runtime_path(env: &RuntimeEnvironment) -> (r: Option<ContainerProgram<'static>>)
    ensures
        !env.gvisor() && env.flatpak_id_set && !env.container_set ==> r is None,
        !env.gvisor() && env.flatpak_id_set && env.container_set ==>
            (r matches Some(p) && p.sub_commands@.len() == 0 && p.suggested_run_args@.len() == 0 && p.suggested_tmp_dir is None)
            || exists|found: Seq<Option<Seq<char>>>| #[trigger] lookup_outcome(desktop_runtime_stubs_spec(env.gvisor()), found, r),
        !(!env.gvisor() && env.flatpak_id_set) ==>
            exists|found: Seq<Option<Seq<char>>>| #[trigger] lookup_outcome(desktop_runtime_stubs_spec(env.gvisor()), found, r),
{
    let value = match &env.gvisor_enablement {
        Some(v) => Some(v.as_str()),
        None => None,
    };
    let gvisor = gvisor_enabled(value);
    if !gvisor && env.flatpak_id_set {
        if env.container_set {
            match crt_executable_find("entrusted-container") {
                Some(path) => return Some(ContainerProgram::new(path, vec![], vec![], None)),
                None => {},
            }
        } else {
            return None;
        }
    }
    let stubs = desktop_runtime_stubs(gvisor);
    let r = first_installed_runtime(&stubs);
    proof {
        assert forall|i: int| 0 <= i < stubs@.len() implies #[trigger] stub_views(stubs@)[i] == desktop_runtime_stubs_spec(gvisor)[i] by {
            lemma_desktop_stub_views(stubs@, gvisor, i);
        }
        assert(stub_views(stubs@) =~= desktop_runtime_stubs_spec(gvisor));
        assert(gvisor == env.gvisor());
    }
    r
}

/// The stubs of `desktop_runtime_stubs`, as plain text.
pub open spec fn desktop_runtime_stubs_spec(gvisor_enabled: bool) -> Seq<(Seq<char>, Seq<&'static str>, Seq<&'static str>, Option<&'static str>)> {
    if gvisor_enabled {
        seq![("podman"@, Seq::<&'static str>::empty(),
            seq!["--security-opt", "no-new-privileges", "--tmpfs", "/loffice:size=5m", "--env", "XDG_CONFIG_HOME=/loffice"],
            None::<&'static str>)]
    } else {
        seq![
            ("docker"@, Seq::<&'static str>::empty(), seq!["--security-opt=no-new-privileges:true"], None::<&'static str>),
            ("podman"@, Seq::<&'static str>::empty(), seq!["--userns", "keep-id", "--security-opt", "no-new-privileges"], None::<&'static str>),
            ("nerdctl"@, Seq::<&'static str>::empty(), seq!["--security-opt", "no-new-privileges"], None::<&'static str>),
        ]
    }
}

proof fn lemma_desktop_stub_views(stubs: Seq<ContainerProgramStub>, gvisor_enabled: bool, i: int)
    requires
        !gvisor_enabled ==> stubs.len() == 3
            && stubs[0].cmd@ == "docker"@ && stubs[0].sub_commands@.len() == 0 && stubs[0].run_args@ == seq!["--security-opt=no-new-privileges:true"] && stubs[0].tmp_dir is None
            && stubs[1].cmd@ == "podman"@ && stubs[1].sub_commands@.len() == 0 && stubs[1].run_args@ == seq!["--userns", "keep-id", "--security-opt", "no-new-privileges"] && stubs[1].tmp_dir is None
            && stubs[2].cmd@ == "nerdctl"@ && stubs[2].sub_commands@.len() == 0 && stubs[2].run_args@ == seq!["--security-opt", "no-new-privileges"] && stubs[2].tmp_dir is None,
        gvisor_enabled ==> stubs.len() == 1
            && stubs[0].cmd@ == "podman"@ && stubs[0].sub_commands@.len() == 0
            && stubs[0].run_args@ == seq!["--security-opt", "no-new-privileges", "--tmpfs", "/loffice:size=5m", "--env", "XDG_CONFIG_HOME=/loffice"]
            && stubs[0].tmp_dir is None,
        0 <= i < stubs.len(),
    ensures
        i < desktop_runtime_stubs_spec(gvisor_enabled).len(),
        stub_view(stubs[i]) == desktop_runtime_stubs_spec(gvisor_enabled)[i],
{
    assert(stubs[i].sub_commands@ =~= Seq::<&'static str>::empty());
}

/// The container runtime the first clients use: the first found among
/// `legacy_runtime_stubs(with_nerdctl)`.
pub fn container_runtime_path(with_nerdctl: bool) -> (r: Option<ContainerProgram<'static>>)
    ensures
        exists|found: Seq<Option<Seq<char>>>| #[trigger] lookup_outcome(legacy_runtime_stubs_spec(with_nerdctl), found, r),
{
    let stubs = legacy_runtime_stubs(with_nerdctl);
    let r = first_installed_runtime(&stubs);
    proof {
        assert forall|i: int| 0 <= i < stubs@.len() implies #[trigger] stub_views(stubs@)[i] == legacy_runtime_stubs_spec(with_nerdctl)[i] by {
            lemma_legacy_stub_views(stubs@, with_nerdctl, i);
        }
        assert(stub_views(stubs@) =~= legacy_runtime_stubs_spec(with_nerdctl));
    }
    r
}

/// The stubs of `legacy_runtime_stubs`, as plain text.
pub open spec fn legacy_runtime_stubs_spec(with_nerdctl: bool) -> Seq<(Seq<char>, Seq<&'static str>, Seq<&'static str>, Option<&'static str>)> {
    let base = seq![
        ("docker"@, Seq::<&'static str>::empty(), Seq::<&'static str>::empty(), None::<&'static str>),
        ("podman"@, Seq::<&'static str>::empty(), seq!["--userns", "keep-id"], None::<&'static str>),
        ("lima"@, seq!["nerdctl"], Seq::<&'static str>::empty(), Some("/tmp/lima")),
    ];
    if with_nerdctl {
        base.push(("nerdctl"@, Seq::<&'static str>::empty(), Seq::<&'static str>::empty(), None::<&'static str>))
    } else {
        base
    }
}

proof fn lemma_legacy_stub_views(stubs: Seq<ContainerProgramStub>, with_nerdctl: bool, i: int)
    requires
        stubs.len() == if with_nerdctl { 4int } else { 3int },
        stubs[0].cmd@ == "docker"@ && stubs[0].sub_commands@.len() == 0 && stubs[0].run_args@.len() == 0 && stubs[0].tmp_dir is None,
        stubs[1].cmd@ == "podman"@ && stubs[1].sub_commands@.len() == 0 && stubs[1].run_args@ == seq!["--userns", "keep-id"] && stubs[1].tmp_dir is None,
        stubs[2].cmd@ == "lima"@ && stubs[2].sub_commands@ == seq!["nerdctl"] && stubs[2].run_args@.len() == 0 && stubs[2].tmp_dir == Some("/tmp/lima"),
        with_nerdctl ==> stubs[3].cmd@ == "nerdctl"@ && stubs[3].sub_commands@.len() == 0 && stubs[3].run_args@.len() == 0 && stubs[3].tmp_dir is None,
        0 <= i < stubs.len(),
    ensures
        i < legacy_runtime_stubs_spec(with_nerdctl).len(),
        stub_view(stubs[i]) == legacy_runtime_stubs_spec(with_nerdctl)[i],
{
    let t = legacy_runtime_stubs_spec(with_nerdctl);
    if i == 0 {
        assert(stubs[0].sub_commands@ =~= Seq::<&'static str>::empty());
        assert(stubs[0].run_args@ =~= Seq::<&'static str>::empty());
    } else if i == 1 {
        assert(stubs[1].sub_commands@ =~= Seq::<&'static str>::empty());
    } else if i == 2 {
        assert(stubs[2].run_args@ =~= Seq::<&'static str>::empty());
    } else {
        assert(stubs[3].sub_commands@ =~= Seq::<&'static str>::empty());
        assert(stubs[3].run_args@ =~= Seq::<&'static str>::empty());
    }
}

// ---------------------------------------------------------------------------
// Command lines

/// The program run inside the sanitizing container.
pub const CONTAINER_IMAGE_EXE: &'static str = "/usr/local/bin/entrusted-container";

/// The environment variable that carries the document's password.
pub const ENV_VAR_ENTRUSTED_DOC_PASSWD: &'static str = "ENTRUSTED_DOC_PASSWD";

/// The environment variable that carries the locale.
pub const ENV_VAR_ENTRUSTED_LANGID: &'static str = "ENTRUSTED_LANGID";

/// The texts of a list of strings.
pub open spec fn texts(v: Seq<String>) -> Seq<Seq<char>> {
    v.map_values(|s: String| s@)
}

fn push_text(v: &mut Vec<String>, s: &str)
    ensures
        texts(final(v)@) == texts(old(v)@).push(s@),
{
    let mut t = String::new();
    push_str(&mut t, s);
    v.push(t);
    assert(texts(v@) =~= texts(old(v)@).push(s@));
}

fn concat_text(a: &str, b: &str) -> (r: String)
    ensures
        r@ == a@ + b@,
{
    let mut t = String::new();
    push_str(&mut t, a);
    push_str(&mut t, b);
    t
}

/// What the containerized sanitization needs to build its command line.
pub struct ContainerRunRequest<'a> {
    pub suggested_run_args: Vec<&'a str>,
    pub seccomp_profile_path: Option<String>,
    pub input_location: String,
    pub safe_dir_location: String,
    pub langid: String,
    pub opt_passwd: Option<String>,
    pub container_image_name: String,
    pub opt_ocr_lang: Option<String>,
    pub visual_quality: String,
    pub log_format: String,
}

/// The arguments of the container run that sanitizes a document: a run
/// without network and capabilities, the runtime's own hardening arguments,
/// the seccomp profile where enabled, the input file and the result folder
/// as volumes, the locale and the document's password (where not empty) as
/// environment, the image and the program to run with its options.
pub open spec fn container_run_args_spec(req: ContainerRunRequest) -> Seq<Seq<char>> {
    run_base_part(req.suggested_run_args@) + seccomp_part(opt_text(req.seccomp_profile_path))
        + volumes_part(req.input_location@, req.safe_dir_location@, req.langid@)
        + password_part(opt_text(req.opt_passwd))
        + seq![req.container_image_name@, "/usr/local/bin/entrusted-container"@]
        + ocr_part(opt_text(req.opt_ocr_lang))
        + seq!["--visual-quality"@, req.visual_quality@, "--log-format"@, req.log_format@]
}

/// The text of an optional string.
pub open spec fn opt_text(o: Option<String>) -> Option<Seq<char>> {
    match o {
        Some(s) => Some(s@),
        None => None,
    }
}

/// `run --rm --network none --cap-drop all` and the runtime's arguments.
pub open spec fn run_base_part(runtime_args: Seq<&str>) -> Seq<Seq<char>> {
    seq!["run"@, "--rm"@, "--network"@, "none"@, "--cap-drop"@, "all"@] + runtime_args.map_values(|a: &str| a@)
}

/// The seccomp profile option, where there is a profile.
pub open spec fn seccomp_part(profile: Option<Seq<char>>) -> Seq<Seq<char>> {
    match profile {
        Some(p) => seq!["--security-opt"@, "seccomp="@ + p],
        None => Seq::empty(),
    }
}

/// The input and result volumes and the locale.
pub open spec fn volumes_part(input: Seq<char>, safe_dir: Seq<char>, langid: Seq<char>) -> Seq<Seq<char>> {
    seq![
        "-v"@, input + ":/tmp/input_file:Z"@,
        "-v"@, safe_dir + ":/safezone:Z"@,
        "-e"@, "ENTRUSTED_LANGID"@ + "="@ + langid,
    ]
}

/// The password variable, where there is a password that is not empty.
pub open spec fn password_part(passwd: Option<Seq<char>>) -> Seq<Seq<char>> {
    match passwd {
        Some(p) => if p.len() > 0 {
            seq!["-e"@, "ENTRUSTED_DOC_PASSWD"@ + "="@ + p]
        } else {
            Seq::empty()
        },
        None => Seq::empty(),
    }
}

/// The OCR language option, where there is one.
pub open spec fn ocr_part(lang: Option<Seq<char>>) -> Seq<Seq<char>> {
    match lang {
        Some(l) => seq!["--ocr-lang"@, l],
        None => Seq::empty(),
    }
}

fn append_texts(v: &mut Vec<String>, w: Vec<String>)
    ensures
        texts(final(v)@) == texts(old(v)@) + texts(w@),
{
    let ghost start = texts(v@);
    let mut i: usize = 0;
    while i < w.len()
        invariant
            i <= w@.len(),
            texts(v@) == start + texts(w@.subrange(0, i as int)),
        decreases w.len() - i,
    {
        push_text(v, w[i].as_str());
        assert(texts(w@.subrange(0, i + 1)) =~= texts(w@.subrange(0, i as int)).push(w@[i as int]@));
        i = i + 1;
    }
    assert(w@.subrange(0, w@.len() as int) == w@);
}

fn run_base_args(runtime_args: &Vec<&str>) -> (r: Vec<String>)
    ensures
        texts(r@) == run_base_part(runtime_args@),
{
    let mut v: Vec<String> = Vec::new();
    push_text(&mut v, "run");
    push_text(&mut v, "--rm");
    push_text(&mut v, "--network");
    push_text(&mut v, "none");
    push_text(&mut v, "--cap-drop");
    push_text(&mut v, "all");
    let ghost start = texts(v@);
    let mut i: usize = 0;
    while i < runtime_args.len()
        invariant
            i <= runtime_args@.len(),
            texts(v@) == start + runtime_args@.subrange(0, i as int).map_values(|a: &str| a@),
        decreases runtime_args.len() - i,
    {
        push_text(&mut v, runtime_args[i]);
        assert(runtime_args@.subrange(0, i + 1).map_values(|a: &str| a@)
            =~= runtime_args@.subrange(0, i as int).map_values(|a: &str| a@).push(runtime_args@[i as int]@));
        i = i + 1;
    }
    assert(runtime_args@.subrange(0, i as int) == runtime_args@);
    v
}

fn seccomp_args(profile: &Option<String>) -> (r: Vec<String>)
    ensures
        texts(r@) == seccomp_part(opt_text(*profile)),
{
    let mut v: Vec<String> = Vec::new();
    match profile {
        Some(p) => {
            push_text(&mut v, "--security-opt");
            let s = concat_text("seccomp=", p.as_str());
            push_text(&mut v, s.as_str());
        },
        None => {
            assert(texts(v@) =~= Seq::<Seq<char>>::empty());
        },
    }
    v
}

fn volume_args(input: &str, safe_dir: &str, langid: &str) -> (r: Vec<String>)
    ensures
        texts(r@) == volumes_part(input@, safe_dir@, langid@),
{
    let mut v: Vec<String> = Vec::new();
    push_text(&mut v, "-v");
    let s = concat_text(input, ":/tmp/input_file:Z");
    push_text(&mut v, s.as_str());
    push_text(&mut v, "-v");
    let s = concat_text(safe_dir, ":/safezone:Z");
    push_text(&mut v, s.as_str());
    push_text(&mut v, "-e");
    let s = concat_text("ENTRUSTED_LANGID", "=");
    let s = concat_text(s.as_str(), langid);
    push_text(&mut v, s.as_str());
    v
}

fn password_args(passwd: &Option<String>) -> (r: Vec<String>)
    ensures
        texts(r@) == password_part(opt_text(*passwd)),
{
    let mut v: Vec<String> = Vec::new();
    match passwd {
        Some(p) => {
            if !p.as_str().is_empty() {
                push_text(&mut v, "-e");
                let s = concat_text("ENTRUSTED_DOC_PASSWD", "=");
                let s = concat_text(s.as_str(), p.as_str());
                push_text(&mut v, s.as_str());
            } else {
                assert(texts(v@) =~= Seq::<Seq<char>>::empty());
            }
        },
        None => {
            assert(texts(v@) =~= Seq::<Seq<char>>::empty());
        },
    }
    v
}

fn ocr_args(lang: &Option<String>) -> (r: Vec<String>)
    ensures
        texts(r@) == ocr_part(opt_text(*lang)),
{
    let mut v: Vec<String> = Vec::new();
    match lang {
        Some(l) => {
            push_text(&mut v, "--ocr-lang");
            push_text(&mut v, l.as_str());
        },
        None => {
            assert(texts(v@) =~= Seq::<Seq<char>>::empty());
        },
    }
    v
}

/// The arguments of the container run that sanitizes a document.
pub fn container_run_args(req: &ContainerRunRequest) -> (r: Vec<String>)
    ensures
        texts(r@) == container_run_args_spec(*req),
{
    let mut v = run_base_args(&req.suggested_run_args);
    append_texts(&mut v, seccomp_args(&req.seccomp_profile_path));
    append_texts(&mut v, volume_args(req.input_location.as_str(), req.safe_dir_location.as_str(), req.langid.as_str()));
    append_texts(&mut v, password_args(&req.opt_passwd));
    let ghost before = texts(v@);
    push_text(&mut v, req.container_image_name.as_str());
    push_text(&mut v, "/usr/local/bin/entrusted-container");
    assert(texts(v@) == before + seq![req.container_image_name@, "/usr/local/bin/entrusted-container"@]);
    append_texts(&mut v, ocr_args(&req.opt_ocr_lang));
    let ghost before = texts(v@);
    push_text(&mut v, "--visual-quality");
    push_text(&mut v, req.visual_quality.as_str());
    push_text(&mut v, "--log-format");
    push_text(&mut v, req.log_format.as_str());
    assert(texts(v@) == before + seq!["--visual-quality"@, req.visual_quality@, "--log-format"@, req.log_format@]);
    v
}

} // verus!
