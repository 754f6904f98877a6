//! Tool-access policy: which tool calls run without asking, which are refused,
//! and which need the user's approval.

use vstd::prelude::*;
use crate::text::{
    chars_of, has_prefix, is_exactly, join_lines, push_chars, push_str, slice_chars, starts_with,
    string_from_chars, vecs_view,
};
use crate::util::{
    is_absolute, leading_components, leading_components_of, lexical_parts, lexical_parts_of, named_parts, parts_prefix,
    parts_text, path_components, path_components_of, path_parts, path_parts_of,
};

verus! {

broadcast use vstd::string::group_string_axioms;

/// What the policy says of a tool call.
#[derive(Debug, Clone, Copy, PartialEq, Eq, Structural)]
pub enum PolicyMode {
    /// Run it without asking.
    Yes,
    /// Refuse it.
    No,
    /// Ask the user.
    Ask,
}

/// The policy settings of a configuration; an absent setting keeps the default.
#[derive(Debug, Clone, Copy, PartialEq, Eq, Structural)]
pub struct PolicyConfig {
    pub access_lookup_directory: Option<PolicyMode>,
    pub access_lookup_fs: Option<PolicyMode>,
    pub access_lookup_web: Option<PolicyMode>,
    pub access_write_directory: Option<PolicyMode>,
    pub access_write_fs: Option<PolicyMode>,
    pub access_bash: Option<PolicyMode>,
}

/// The configuration that sets nothing.
pub open spec fn empty_policy_config() -> PolicyConfig {
    PolicyConfig {
        access_lookup_directory: None,
        access_lookup_fs: None,
        access_lookup_web: None,
        access_write_directory: None,
        access_write_fs: None,
        access_bash: None,
    }
}

impl Default for PolicyConfig {
    fn default() -> (r: Self)
        ensures
            r == empty_policy_config(),
    {
        PolicyConfig {
            access_lookup_directory: None,
            access_lookup_fs: None,
            access_lookup_web: None,
            access_write_directory: None,
            access_write_fs: None,
            access_bash: None,
        }
    }
}

/// The mode for each kind of tool access.
#[derive(Debug, Clone, Copy, PartialEq, Eq, Structural)]
pub struct Policy {
    /// Reading inside the workspace directory.
    pub lookup_directory: PolicyMode,
    /// Reading outside the workspace directory.
    pub lookup_fs: PolicyMode,
    /// Fetching web pages and searching the web.
    pub lookup_web: PolicyMode,
    /// Writing inside the workspace directory.
    pub write_directory: PolicyMode,
    /// Writing outside the workspace directory.
    pub write_fs: PolicyMode,
    /// Running shell commands.
    pub bash: PolicyMode,
}

/// The default policy: read everywhere, ask to write, ask for bash.
pub open spec fn default_policy() -> Policy {
    Policy {
        lookup_directory: PolicyMode::Yes,
        lookup_fs: PolicyMode::Yes,
        lookup_web: PolicyMode::Yes,
        write_directory: PolicyMode::Ask,
        write_fs: PolicyMode::Ask,
        bash: PolicyMode::Ask,
    }
}

/// The setting `s`, or `d` when it is absent.
pub open spec fn setting_or(s: Option<PolicyMode>, d: PolicyMode) -> PolicyMode {
    match s {
        Some(m) => m,
        None => d,
    }
}

/// The policy that `cfg` describes: each present setting replaces the default.
pub open spec fn policy_of(cfg: PolicyConfig) -> Policy {
    let d = default_policy();
    Policy {
        lookup_directory: setting_or(cfg.access_lookup_directory, d.lookup_directory),
        lookup_fs: setting_or(cfg.access_lookup_fs, d.lookup_fs),
        lookup_web: setting_or(cfg.access_lookup_web, d.lookup_web),
        write_directory: setting_or(cfg.access_write_directory, d.write_directory),
        write_fs: setting_or(cfg.access_write_fs, d.write_fs),
        bash: setting_or(cfg.access_bash, d.bash),
    }
}

/// A lookup target that goes to the network: a web search or an http(s) URL.
pub open spec fn is_web_target(t: Seq<char>) -> bool {
    t == "web"@ || has_prefix(t, "http://"@) || has_prefix(t, "https://"@)
}

/// The mode for a lookup of `target`; `inside_base` tells whether the local
/// path it names lies inside the workspace.
pub open spec fn lookup_mode(p: Policy, target: Seq<char>, inside_base: bool) -> PolicyMode {
    if is_web_target(target) {
        p.lookup_web
    } else if inside_base {
        p.lookup_directory
    } else {
        p.lookup_fs
    }
}

/// The mode for a write; `inside_base` tells whether the path lies inside the
/// workspace.
pub open spec fn write_mode(p: Policy, inside_base: bool) -> PolicyMode {
    if inside_base {
        p.write_directory
    } else {
        p.write_fs
    }
}

fn setting_or_default(s: Option<PolicyMode>, d: PolicyMode) -> (r: PolicyMode)
    ensures
        r == setting_or(s, d),
{
    match s {
        Some(m) => m,
        None => d,
    }
}

/// Whether the lookup target `target` goes to the network.
pub fn is_web_lookup(target: &str) -> (r: bool)
    ensures
        r == is_web_target(target@),
{
    let t = chars_of(target);
    is_exactly(&t, "web") || starts_with(&t, "http://") || starts_with(&t, "https://")
}

impl Default for Policy {
    fn default() -> (r: Self)
        ensures
            r == default_policy(),
    {
        Policy {
            lookup_directory: PolicyMode::Yes,
            lookup_fs: PolicyMode::Yes,
            lookup_web: PolicyMode::Yes,
            write_directory: PolicyMode::Ask,
            write_fs: PolicyMode::Ask,
            bash: PolicyMode::Ask,
        }
    }
}

impl Policy {
    /// The policy that `cfg` sets, the default standing for every absent setting.
    pub fn from_config(cfg: &PolicyConfig) -> (r: Policy)
        ensures
            r == policy_of(*cfg),
    {
        let d = Policy::default();
        Policy {
            lookup_directory: setting_or_default(cfg.access_lookup_directory, d.lookup_directory),
            lookup_fs: setting_or_default(cfg.access_lookup_fs, d.lookup_fs),
            lookup_web: setting_or_default(cfg.access_lookup_web, d.lookup_web),
            write_directory: setting_or_default(cfg.access_write_directory, d.write_directory),
            write_fs: setting_or_default(cfg.access_write_fs, d.write_fs),
            bash: setting_or_default(cfg.access_bash, d.bash),
        }
    }

    /// The mode for a lookup of `target`: network targets (`web`, `http://`,
    /// `https://`) get the web mode; a local path gets the directory mode when
    /// `inside_base` (it lies inside the workspace, as `InsideWalk` decides
    /// it) and the file-system mode otherwise.
    pub fn check_lookup(&self, target: &str, inside_base: bool) -> (r: PolicyMode)
        ensures
            r == lookup_mode(*self, target@, inside_base),
    {
        if is_web_lookup(target) {
            self.lookup_web
        } else if inside_base {
            self.lookup_directory
        } else {
            self.lookup_fs
        }
    }

    /// The mode for a write to a path that lies inside the workspace when
    /// `inside_base` (as `InsideWalk` decides it: where the path lands, `..`
    /// resolved, against the workspace's canonical form).
    pub fn check_write(&self, inside_base: bool) -> (r: PolicyMode)
        ensures
            r == write_mode(*self, inside_base),
    {
        if inside_base {
            self.write_directory
        } else {
            self.write_fs
        }
    }

    /// The mode for running a shell command.
    pub fn check_bash(&self) -> (r: PolicyMode)
        ensures
            r == self.bash,
    {
        self.bash
    }
}

/// A configuration that sets nothing gives the default policy.
pub proof fn law_empty_config_gives_default()
    ensures
        policy_of(empty_policy_config()) == default_policy(),
{
}

/// Every setting a configuration holds is the mode the policy takes for it.
pub proof fn law_settings_override_defaults(cfg: PolicyConfig, m: PolicyMode)
    ensures
        cfg.access_bash == Some(m) ==> policy_of(cfg).bash == m,
        cfg.access_lookup_directory == Some(m) ==> policy_of(cfg).lookup_directory == m,
        cfg.access_lookup_fs == Some(m) ==> policy_of(cfg).lookup_fs == m,
        cfg.access_lookup_web == Some(m) ==> policy_of(cfg).lookup_web == m,
        cfg.access_write_directory == Some(m) ==> policy_of(cfg).write_directory == m,
        cfg.access_write_fs == Some(m) ==> policy_of(cfg).write_fs == m,
{
}


/// Which of the policy's modes a call gets depends on where it goes: a
/// lookup of a network target (`web`, `http://`, `https://`) gets the web
/// mode wherever the workspace is; a lookup of a local path gets the
/// directory mode when the path lies inside the workspace and the
/// file-system mode when it lies outside; a write likewise gets the
/// directory mode inside and the file-system mode outside.
pub proof fn law_mode_follows_where_the_call_goes(p: Policy, t: Seq<char>)
    ensures
        (t == "web"@ || has_prefix(t, "http://"@) || has_prefix(t, "https://"@)) ==> lookup_mode(
            p,
            t,
            true,
        ) == p.lookup_web && lookup_mode(p, t, false) == p.lookup_web,
        !(t == "web"@ || has_prefix(t, "http://"@) || has_prefix(t, "https://"@)) ==> lookup_mode(
            p,
            t,
            true,
        ) == p.lookup_directory && lookup_mode(p, t, false) == p.lookup_fs,
        write_mode(p, true) == p.write_directory,
        write_mode(p, false) == p.write_fs,
{
}

// ---------------------------------------------------------------------------
// Whether a path lies inside the workspace
// ---------------------------------------------------------------------------

/// The components of where a path lands: the leading component of the
/// canonical form `canonical` of its deepest existing ancestor, then that
/// ancestor's parts with the components `rest` that follow it appended, `.`
/// and `..` resolved as text (components that do not exist yet cannot be
/// links).
pub open spec fn landing_components(canonical: Seq<char>, rest: Seq<Seq<char>>) -> Seq<
    Seq<char>,
> {
    leading_components(canonical) + lexical_parts(
        path_parts(canonical) + rest,
        is_absolute(canonical),
    )
}

/// A path lies inside the workspace whose canonical form is `canonical_base`
/// when the workspace's components are the first components of where the
/// path lands (`Path::starts_with`).
pub open spec fn lands_inside(
    canonical: Seq<char>,
    rest: Seq<Seq<char>>,
    canonical_base: Seq<char>,
) -> bool {
    path_components(canonical_base).is_prefix_of(landing_components(canonical, rest))
}

/// The check that a path lies inside the workspace: the path's components,
/// and how many of them the ancestor to probe next keeps. The probes go from
/// the whole path up, one component at a time, to the first that exists.
pub struct InsideWalk {
    parts: Vec<Vec<char>>,
    absolute: bool,
    depth: usize,
}

impl InsideWalk {
    /// The components of the path being checked.
    pub closed spec fn parts(&self) -> Seq<Seq<char>> {
        vecs_view(self.parts@)
    }

    /// Whether the path being checked is absolute.
    pub closed spec fn absolute(&self) -> bool {
        self.absolute
    }

    /// How many components the ancestor to probe next keeps.
    pub closed spec fn depth(&self) -> int {
        self.depth as int
    }

    #[verifier::type_invariant]
    closed spec fn wf(&self) -> bool {
        self.depth <= self.parts@.len()
    }

    /// The check of the path `resolved`, starting from the whole path.
    pub fn new(resolved: &str) -> (w: InsideWalk)
        ensures
            w.parts() == path_parts(resolved@),
            w.absolute() == is_absolute(resolved@),
            w.depth() == w.parts().len(),
    {
        let t = chars_of(resolved);
        let parts = path_parts_of(&t);
        let absolute = t.len() > 0 && t[0] == '/';
        let depth = parts.len();
        InsideWalk { parts, absolute, depth }
    }

    /// The ancestor to probe next: the first `depth` components.
    pub fn probe(&self) -> (p: String)
        ensures
            p@ == parts_text(self.parts().take(self.depth()), self.absolute()),
    {
        proof {
            use_type_invariant(self);
        }
        let j = join_lines(&self.parts, 0, self.depth, "/");
        let mut out: Vec<char> = Vec::new();
        if self.absolute {
            push_str(&mut out, "/");
        }
        push_chars(&mut out, &j);
        assert(vecs_view(self.parts@).subrange(0, self.depth as int) == self.parts().take(
            self.depth(),
        ));
        string_from_chars(out.as_slice())
    }

    /// The probe's result: whether the ancestor exists and, if so, its
    /// canonical form (absent when it has none). An existing ancestor
    /// decides: the path lies inside when the components of where it lands
    /// begin with those of the workspace's canonical form `canonical_base`
    /// (`lands_inside`). A missing one sends the
    /// check to the next ancestor up, and when none is left the path lies
    /// outside. `None` while the check goes on.
    pub fn step(&mut self, exists: bool, canonical: Option<&str>, canonical_base: &str) -> (r:
        Option<bool>)
        ensures
            final(self).parts() == old(self).parts(),
            final(self).absolute() == old(self).absolute(),
            exists ==> r == Some(
                match canonical {
                    Some(c) => lands_inside(
                        c@,
                        old(self).parts().skip(old(self).depth()),
                        canonical_base@,
                    ),
                    None => false,
                },
            ),
            !exists && old(self).depth() == 0 ==> r == Some(false),
            !exists && old(self).depth() > 0 ==> r is None && final(self).depth() == old(
                self,
            ).depth() - 1,
    {
        proof {
            use_type_invariant(&*self);
        }
        if exists {
            match canonical {
                Some(c) => {
                    let ct = chars_of(c);
                    let mut all = path_parts_of(&ct);
                    let ghost head = vecs_view(all@);
                    let mut i = self.depth;
                    while i < self.parts.len()
                        invariant
                            self.depth <= i <= self.parts@.len(),
                            vecs_view(all@) == head + vecs_view(self.parts@).subrange(
                                self.depth as int,
                                i as int,
                            ),
                        decreases self.parts.len() - i,
                    {
                        let ghost before = vecs_view(all@);
                        let part = slice_chars(&self.parts[i], 0, self.parts[i].len());
                        assert(part@ =~= self.parts@[i as int]@);
                        all.push(part);
                        assert(vecs_view(all@) =~= before.push(self.parts@[i as int]@));
                        assert(vecs_view(self.parts@).subrange(self.depth as int, i + 1)
                            =~= vecs_view(self.parts@).subrange(self.depth as int, i as int).push(
                            self.parts@[i as int]@,
                        ));
                        i += 1;
                    }
                    assert(vecs_view(self.parts@).subrange(
                        self.depth as int,
                        self.parts@.len() as int,
                    ) =~= self.parts().skip(self.depth()));
                    let abs = ct.len() > 0 && ct[0] == '/';
                    let mut lex = lexical_parts_of(&all, abs);
                    let mut landed = leading_components_of(&ct);
                    let ghost lead = landed@;
                    let ghost tail = lex@;
                    landed.append(&mut lex);
                    assert(vecs_view(landed@) =~= vecs_view(lead) + vecs_view(tail));
                    let bc = path_components_of(&chars_of(canonical_base));
                    Some(parts_prefix(&bc, &landed))
                },
                None => Some(false),
            }
        } else if self.depth == 0 {
            Some(false)
        } else {
            self.depth = self.depth - 1;
            None
        }
    }
}

/// A path under the workspace lies inside it: when the canonical form `c` of
/// the deepest existing ancestor lies under the workspace's canonical form
/// `b`, and the components `rest` that follow that ancestor name neither `.`
/// nor `..`, the path lands inside the workspace.
pub proof fn law_landing_under_workspace_is_inside(
    c: Seq<char>,
    rest: Seq<Seq<char>>,
    b: Seq<char>,
)
    requires
        is_absolute(c),
        forall|i: int|
            0 <= i < path_parts(c).len() ==> path_parts(c)[i] != "."@ && path_parts(c)[i]
                != ".."@,
        forall|i: int| 0 <= i < rest.len() ==> rest[i] != "."@ && rest[i] != ".."@,
        path_components(b).is_prefix_of(path_components(c)),
    ensures
        lands_inside(c, rest, b),
{
    let pc = path_parts(c);
    lemma_named_plain(pc);
    let all = pc + rest;
    assert forall|i: int| 0 <= i < all.len() implies all[i] != "."@ && all[i] != ".."@ by {
        if i < pc.len() {
            assert(all[i] == pc[i]);
        } else {
            assert(all[i] == rest[i - pc.len()]);
        }
    }
    lemma_lexical_plain(all);
    let cc = path_components(c);
    let lc = landing_components(c, rest);
    let bc = path_components(b);
    assert(cc == seq!["/"@] + pc);
    assert(lc == seq!["/"@] + pc + rest);
    assert forall|i: int| 0 <= i < bc.len() implies bc[i] == lc[i] by {
        assert(bc[i] == cc.subrange(0, bc.len() as int)[i]);
        assert(cc[i] == lc[i]);
    }
    assert(bc =~= lc.subrange(0, bc.len() as int));
}

/// A path that climbs out of the workspace through `..` past components
/// that do not exist lands outside it: the path `base/nosuch/../../x`, whose
/// walk up finds the workspace itself (canonically `c`) as the deepest
/// existing ancestor, lands at `x` in the parent of `c`, and so lies outside
/// the workspace unless `x` names the workspace itself.
pub proof fn law_dotdot_past_missing_components_leaves(c: Seq<char>, x: Seq<char>)
    requires
        is_absolute(c),
        path_parts(c).len() > 0,
        forall|i: int|
            0 <= i < path_parts(c).len() ==> path_parts(c)[i] != "."@ && path_parts(c)[i]
                != ".."@,
        x != "."@ && x != ".."@,
        x != path_parts(c).last(),
    ensures
        landing_components(c, seq!["nosuch"@, ".."@, ".."@, x]) == seq!["/"@] + path_parts(
            c,
        ).drop_last().push(x),
        !lands_inside(c, seq!["nosuch"@, ".."@, ".."@, x], c),
{
    let base = path_parts(c);
    reveal_strlit("nosuch");
    reveal_strlit(".");
    reveal_strlit("..");
    assert("nosuch"@ != "."@ && "nosuch"@ != ".."@) by {
        assert("nosuch"@.len() == 6);
    }
    lemma_lexical_plain(base);
    lemma_named_plain(base);
    let p1 = base.push("nosuch"@);
    let p2 = p1.push(".."@);
    let p3 = p2.push(".."@);
    let p4 = p3.push(x);
    assert(p1.drop_last() == base);
    assert(lexical_parts(p1, true) == base.push("nosuch"@));
    assert(p2.drop_last() == p1);
    assert(".."@.len() == 2 && "."@.len() == 1);
    assert(".."@ != "."@);
    assert(p2.last() == ".."@);
    assert(lexical_parts(p1, true).last() == "nosuch"@);
    assert(lexical_parts(p2, true) == base.push("nosuch"@).drop_last());
    assert(base.push("nosuch"@).drop_last() == base);
    assert(p3.drop_last() == p2);
    assert(base.last() != ".."@);
    assert(p3.last() == ".."@);
    assert(lexical_parts(p3, true) == base.drop_last());
    assert(p4.drop_last() == p3);
    assert(p4.last() == x);
    assert(lexical_parts(p4, true) == base.drop_last().push(x));
    assert(p4 == base + seq!["nosuch"@, ".."@, ".."@, x]);
    let lc = seq!["/"@] + base.drop_last().push(x);
    let cc = path_components(c);
    assert(cc == seq!["/"@] + base);
    let n = base.len() as int;
    assert(cc[n] == base.last());
    assert(lc[n] == x);
    if cc.is_prefix_of(lc) {
        assert(cc[n] == lc.subrange(0, cc.len() as int)[n]);
    }
}

proof fn lemma_named_plain(parts: Seq<Seq<char>>)
    requires
        forall|i: int| 0 <= i < parts.len() ==> parts[i] != "."@,
    ensures
        named_parts(parts) == parts,
    decreases parts.len(),
{
    if parts.len() > 0 {
        lemma_named_plain(parts.drop_last());
        assert(parts.drop_last().push(parts.last()) == parts);
    }
}

proof fn lemma_lexical_plain(parts: Seq<Seq<char>>)
    requires
        forall|i: int| 0 <= i < parts.len() ==> parts[i] != "."@ && parts[i] != ".."@,
    ensures
        lexical_parts(parts, true) == parts,
    decreases parts.len(),
{
    if parts.len() > 0 {
        lemma_lexical_plain(parts.drop_last());
        assert(parts.drop_last().push(parts.last()) == parts);
    }
}

} // verus!
