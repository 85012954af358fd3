//! The permission manager: evaluates permission requests against the global
//! scope or a per-actor override, and tracks consecutive denials per actor.

use vstd::prelude::*;
use vstd::string::StrSliceExecFns;

use crate::messages::PermTypeView;
use crate::messages::PermissionType;
use crate::text::contains_seq;
use crate::text::first_token;
use crate::text::first_token_str;
use crate::text::str_contains;
use crate::text::str_eq;
use crate::types::CommandPermissions;
use crate::types::PermissionScope;
use crate::types::ResourceLimits;
use crate::types::ScopeView;

verus! {

/// How one path pattern is interpreted: as a shell-style wildcard, where
/// `*` matches any run of characters and every other character matches only
/// itself. A pattern without `*` must equal the path exactly; one ending in
/// `/*` grants any path extending the text before the `*`.
pub open spec fn path_pattern_matches(pat: Seq<char>, path: Seq<char>) -> bool
    decreases pat.len(), path.len(),
{
    if pat.len() == 0 {
        path.len() == 0
    } else if pat[0] == '*' {
        path_pattern_matches(pat.drop_first(), path) || (path.len() > 0 && path_pattern_matches(
            pat,
            path.drop_first(),
        ))
    } else {
        path.len() > 0 && pat[0] == path[0] && path_pattern_matches(
            pat.drop_first(),
            path.drop_first(),
        )
    }
}

/// Some pattern in the list matches the path.
pub open spec fn some_pattern_matches(pats: Seq<Seq<char>>, path: Seq<char>) -> bool {
    exists|i: int| 0 <= i < pats.len() && #[trigger] path_pattern_matches(pats[i], path)
}

/// A command is granted when no blacklist entry occurs in the full command
/// text (an unconditional veto) and the command's first token equals some
/// whitelist entry exactly.
pub open spec fn command_granted(
    whitelist: Seq<Seq<char>>,
    blacklist: Seq<Seq<char>>,
    cmd: Seq<char>,
) -> bool {
    &&& forall|i: int| 0 <= i < blacklist.len() ==> !contains_seq(cmd, #[trigger] blacklist[i])
    &&& exists|i: int| 0 <= i < whitelist.len() && #[trigger] whitelist[i] == first_token(cmd)
}

/// A resource increase is granted when the named resource is known and the
/// requested amount is within its limit; unknown resources are denied.
pub open spec fn resource_granted(scope: ScopeView, resource: Seq<char>, amount: u64) -> bool {
    if resource == "cpu"@ {
        amount <= scope.max_cpu_percent
    } else if resource == "memory"@ {
        amount <= scope.max_memory_gb
    } else if resource == "disk"@ {
        amount <= scope.max_disk_gb
    } else {
        false
    }
}

/// Whether a scope grants a request, by request kind. Network access needs
/// either direction to be open; the `require_approval` patterns are advisory
/// and not consulted here.
pub open spec fn request_granted(scope: ScopeView, req: PermTypeView) -> bool {
    match req {
        PermTypeView::FileRead { path } => some_pattern_matches(scope.read_paths, path),
        PermTypeView::FileWrite { path } => some_pattern_matches(scope.write_paths, path),
        PermTypeView::FileExecute { path } => some_pattern_matches(scope.execute_paths, path),
        PermTypeView::Command { command } => command_granted(
            scope.whitelist,
            scope.blacklist,
            command,
        ),
        PermTypeView::NetworkAccess { url: _ } => scope.outbound || scope.inbound,
        PermTypeView::ResourceIncrease { resource, amount } => resource_granted(
            scope,
            resource,
            amount,
        ),
    }
}

/// No two entries of the association list share a key.
pub open spec fn unique_keys<V>(m: Seq<(String, V)>) -> bool {
    forall|i: int, j: int| 0 <= i < j < m.len() ==> (#[trigger] m[i]).0@ != (#[trigger] m[j]).0@
}

/// First-match lookup in an association list.
pub open spec fn map_lookup<V>(m: Seq<(String, V)>, k: Seq<char>) -> Option<V>
    decreases m.len(),
{
    if m.len() == 0 {
        None
    } else if m[0].0@ == k {
        Some(m[0].1)
    } else {
        map_lookup(m.drop_first(), k)
    }
}

/// A found key determines the lookup result; a missing key gives `None`.
pub proof fn lemma_lookup_characterization<V>(m: Seq<(String, V)>, k: Seq<char>)
    requires
        unique_keys(m),
    ensures
        (forall|i: int| 0 <= i < m.len() ==> (#[trigger] m[i]).0@ != k) ==> map_lookup(m, k)
            is None,
        forall|i: int|
            0 <= i < m.len() && (#[trigger] m[i]).0@ == k ==> map_lookup(m, k) == Some(m[i].1),
    decreases m.len(),
{
    if m.len() > 0 {
        let rest = m.drop_first();
        assert(forall|i: int| 0 <= i < rest.len() ==> rest[i] == m[i + 1]);
        assert(unique_keys(rest));
        lemma_lookup_characterization(rest, k);
        if m[0].0@ == k {
            assert forall|i: int|
                0 <= i < m.len() && (#[trigger] m[i]).0@ == k implies map_lookup(m, k) == Some(
                m[i].1,
            ) by {
                if i != 0 {
                    assert(m[0].0@ != m[i].0@);
                }
            }
        } else {
            assert forall|i: int|
                0 <= i < m.len() && (#[trigger] m[i]).0@ == k implies map_lookup(m, k) == Some(
                m[i].1,
            ) by {
                assert(rest[i - 1] == m[i]);
            }
            if forall|i: int| 0 <= i < m.len() ==> (#[trigger] m[i]).0@ != k {
                assert(forall|i: int| 0 <= i < rest.len() ==> (#[trigger] rest[i]).0@ != k);
            }
        }
    }
}

/// A successful lookup comes from some entry with that key.
pub proof fn lemma_lookup_some<V>(m: Seq<(String, V)>, k: Seq<char>)
    ensures
        map_lookup(m, k) matches Some(v) ==> exists|i: int|
            0 <= i < m.len() && (#[trigger] m[i]).0@ == k && m[i].1 == v,
    decreases m.len(),
{
    if m.len() > 0 {
        if m[0].0@ == k {
            assert(m[0].0@ == k && m[0].1 == map_lookup(m, k).unwrap());
        } else {
            let rest = m.drop_first();
            lemma_lookup_some(rest, k);
            if map_lookup(m, k) is Some {
                let i = choose|i: int|
                    0 <= i < rest.len() && (#[trigger] rest[i]).0@ == k && rest[i].1 == map_lookup(
                        rest,
                        k,
                    ).unwrap();
                assert(m[i + 1] == rest[i]);
                assert(m[i + 1].0@ == k && m[i + 1].1 == map_lookup(m, k).unwrap());
            }
        }
    }
}

/// Removing index `at` and appending `(key of at, v)` keeps keys unique,
/// binds the key to `v`, and leaves every other key's binding unchanged.
pub proof fn lemma_update_entry<V>(m0: Seq<(String, V)>, m1: Seq<(String, V)>, at: int, k: Seq<char>)
    requires
        unique_keys(m0),
        0 <= at < m0.len(),
        m0[at].0@ == k,
        m1.len() == m0.len(),
        forall|j: int| 0 <= j < at ==> m1[j] == m0[j],
        forall|j: int| at <= j < m0.len() - 1 ==> #[trigger] m1[j] == m0[j + 1],
        m1[m0.len() - 1].0@ == k,
    ensures
        unique_keys(m1),
        map_lookup(m1, k) == Some(m1[m0.len() - 1].1),
        forall|o: Seq<char>| o != k ==> map_lookup(m1, o) == map_lookup(m0, o),
{
    assert forall|i: int, j: int|
        0 <= i < j < m1.len() implies (#[trigger] m1[i]).0@ != (#[trigger] m1[j]).0@ by {
        if j < m1.len() - 1 {
            // both land in m0 at distinct indices
            if i < at {
                assert(m1[i] == m0[i]);
            } else {
                assert(m1[i] == m0[i + 1]);
            }
            if j < at {
                assert(m1[j] == m0[j]);
            } else {
                assert(m1[j] == m0[j + 1]);
            }
        } else {
            // j is the appended entry, whose key is k; m1[i] comes from m0
            // at an index other than `at`, and unique keys in m0 give the
            // mismatch with m0[at].
            if i < at {
                assert(m1[i] == m0[i]);
                assert(m0[i].0@ != m0[at].0@);
            } else {
                assert(m1[i] == m0[i + 1]);
                assert(m0[at].0@ != m0[i + 1].0@);
            }
        }
    }
    lemma_lookup_characterization(m1, k);
    assert forall|o: Seq<char>| o != k implies map_lookup(m1, o) == map_lookup(m0, o) by {
        lemma_lookup_characterization(m1, o);
        lemma_lookup_characterization(m0, o);
        if exists|j: int| 0 <= j < m0.len() && (#[trigger] m0[j]).0@ == o {
            let j = choose|j: int| 0 <= j < m0.len() && (#[trigger] m0[j]).0@ == o;
            if j < at {
                assert(m1[j] == m0[j]);
            } else {
                assert(j != at);
                assert(m1[j - 1] == m0[j]);
            }
        } else {
            assert forall|j: int| 0 <= j < m1.len() implies (#[trigger] m1[j]).0@ != o by {
                if j < at {
                    assert(m1[j] == m0[j]);
                } else if j < m0.len() - 1 {
                    assert(m1[j] == m0[j + 1]);
                } else {
                    assert(m1[j].0@ == k);
                }
            }
        }
    }
}

/// Appending an entry with a fresh key keeps keys unique, binds the new key,
/// and leaves every other key's binding unchanged.
pub proof fn lemma_append_entry<V>(m0: Seq<(String, V)>, m1: Seq<(String, V)>, k: Seq<char>)
    requires
        unique_keys(m0),
        forall|j: int| 0 <= j < m0.len() ==> (#[trigger] m0[j]).0@ != k,
        m1.len() == m0.len() + 1,
        forall|j: int| 0 <= j < m0.len() ==> m1[j] == m0[j],
        m1[m0.len() as int].0@ == k,
    ensures
        unique_keys(m1),
        map_lookup(m1, k) == Some(m1[m0.len() as int].1),
        map_lookup(m0, k) is None,
        forall|o: Seq<char>| o != k ==> map_lookup(m1, o) == map_lookup(m0, o),
{
    assert forall|i: int, j: int|
        0 <= i < j < m1.len() implies (#[trigger] m1[i]).0@ != (#[trigger] m1[j]).0@ by {
        if j < m1.len() - 1 {
            assert(m1[i] == m0[i] && m1[j] == m0[j]);
        } else {
            assert(m1[i] == m0[i]);
        }
    }
    lemma_lookup_characterization(m0, k);
    lemma_lookup_characterization(m1, k);
    assert forall|o: Seq<char>| o != k implies map_lookup(m1, o) == map_lookup(m0, o) by {
        lemma_lookup_characterization(m1, o);
        lemma_lookup_characterization(m0, o);
        if exists|j: int| 0 <= j < m0.len() && (#[trigger] m0[j]).0@ == o {
            let j = choose|j: int| 0 <= j < m0.len() && (#[trigger] m0[j]).0@ == o;
            assert(m1[j] == m0[j]);
        } else {
            assert forall|j: int| 0 <= j < m1.len() implies (#[trigger] m1[j]).0@ != o by {
                if j < m0.len() {
                    assert(m1[j] == m0[j]);
                }
            }
        }
    }
}

/// Removing index `at` keeps keys unique, unbinds that key, and leaves every
/// other key's binding unchanged.
pub proof fn lemma_remove_entry<V>(m0: Seq<(String, V)>, m1: Seq<(String, V)>, at: int, k: Seq<char>)
    requires
        unique_keys(m0),
        0 <= at < m0.len(),
        m0[at].0@ == k,
        m1.len() == m0.len() - 1,
        forall|j: int| 0 <= j < at ==> m1[j] == m0[j],
        forall|j: int| at <= j < m0.len() - 1 ==> #[trigger] m1[j] == m0[j + 1],
    ensures
        unique_keys(m1),
        map_lookup(m1, k) is None,
        forall|o: Seq<char>| o != k ==> map_lookup(m1, o) == map_lookup(m0, o),
{
    assert forall|i: int, j: int|
        0 <= i < j < m1.len() implies (#[trigger] m1[i]).0@ != (#[trigger] m1[j]).0@ by {
        if i < at {
            assert(m1[i] == m0[i]);
        } else {
            assert(m1[i] == m0[i + 1]);
        }
        if j < at {
            assert(m1[j] == m0[j]);
        } else {
            assert(m1[j] == m0[j + 1]);
        }
    }
    assert forall|j: int| 0 <= j < m1.len() implies (#[trigger] m1[j]).0@ != k by {
        if j < at {
            assert(m1[j] == m0[j]);
            assert(m0[j].0@ != m0[at].0@);
        } else {
            assert(m1[j] == m0[j + 1]);
            assert(m0[at].0@ != m0[j + 1].0@);
        }
    }
    lemma_lookup_characterization(m1, k);
    assert forall|o: Seq<char>| o != k implies map_lookup(m1, o) == map_lookup(m0, o) by {
        lemma_lookup_characterization(m1, o);
        lemma_lookup_characterization(m0, o);
        if exists|j: int| 0 <= j < m0.len() && (#[trigger] m0[j]).0@ == o {
            let j = choose|j: int| 0 <= j < m0.len() && (#[trigger] m0[j]).0@ == o;
            if j < at {
                assert(m1[j] == m0[j]);
            } else {
                assert(j != at);
                assert(m1[j - 1] == m0[j]);
            }
        } else {
            assert forall|j: int| 0 <= j < m1.len() implies (#[trigger] m1[j]).0@ != o by {
                if j < at {
                    assert(m1[j] == m0[j]);
                } else {
                    assert(m1[j] == m0[j + 1]);
                }
            }
        }
    }
}

/// Saturating increment of a denial counter.
pub open spec fn inc_sat(c: u64) -> u64 {
    if c == u64::MAX {
        c
    } else {
        (c + 1) as u64
    }
}

/// The denial count an association list assigns to a key.
pub open spec fn count_at(m: Seq<(String, u64)>, id: Seq<char>) -> u64 {
    match map_lookup(m, id) {
        Some(c) => c,
        None => 0,
    }
}

/// Evaluates permission requests against the applicable scope and tracks
/// consecutive denials per actor. The override scope for an actor, when set,
/// fully replaces the global scope for that actor's checks.
pub struct PermissionManager {
    pub global_scope: PermissionScope,
    pub llm_scopes: Vec<(String, PermissionScope)>,
    pub failed_requests: Vec<(String, u64)>,
}

impl PermissionManager {
    /// Internal association lists have unique keys.
    pub open spec fn wf(self) -> bool {
        unique_keys(self.llm_scopes@) && unique_keys(self.failed_requests@)
    }

    /// The global scope's content.
    pub open spec fn global(self) -> ScopeView {
        self.global_scope@
    }

    /// The override scope stored for an actor, if any.
    pub open spec fn override_of(self, id: Seq<char>) -> Option<PermissionScope> {
        map_lookup(self.llm_scopes@, id)
    }

    /// The scope an actor's requests are checked against.
    pub open spec fn scope_of(self, id: Seq<char>) -> ScopeView {
        match map_lookup(self.llm_scopes@, id) {
            Some(s) => s@,
            None => self.global_scope@,
        }
    }

    /// The actor's consecutive denial count; zero when never denied or reset.
    pub open spec fn failed_count(self, id: Seq<char>) -> u64 {
        count_at(self.failed_requests@, id)
    }

    /// A fresh manager: the default global scope, no overrides, no denials.
    pub fn new() -> (m: Self)
        ensures
            m.wf(),
            m.global().is_default(),
            m.llm_scopes@.len() == 0,
            m.failed_requests@.len() == 0,
    {
        PermissionManager {
            global_scope: PermissionScope::default(),
            llm_scopes: Vec::new(),
            failed_requests: Vec::new(),
        }
    }

    /// Resolves the scope for an actor: the stored override if present, else
    /// a copy of the global scope.
    fn get_scope(&self, llm_id: &str) -> (scope: PermissionScope)
        requires
            self.wf(),
        ensures
            scope@ == self.scope_of(llm_id@),
    {
        let n = self.llm_scopes.len();
        let mut i: usize = 0;
        while i < n
            invariant
                self.wf(),
                n == self.llm_scopes@.len(),
                i <= n,
                forall|j: int| 0 <= j < i ==> (#[trigger] self.llm_scopes@[j]).0@ != llm_id@,
            decreases n - i,
        {
            if str_eq(self.llm_scopes[i].0.as_str(), llm_id) {
                proof {
                    lemma_lookup_characterization(self.llm_scopes@, llm_id@);
                }
                return self.llm_scopes[i].1.clone();
            }
            i += 1;
        }
        proof {
            lemma_lookup_characterization(self.llm_scopes@, llm_id@);
        }
        self.global_scope.clone()
    }

    /// Tests one path pattern against a path.
    fn path_matches(pattern: &str, path: &str) -> (r: bool)
        ensures
            r == path_pattern_matches(pattern@, path@),
    {
        let plen = pattern.unicode_len();
        let qlen = path.unicode_len();
        proof {
            assert(pattern@.skip(0) =~= pattern@);
            assert(path@.skip(0) =~= path@);
        }
        Self::glob_match_at(pattern, 0, plen, path, 0, qlen)
    }

    /// Matches the pattern's tail from `pi` against the path's tail from
    /// `qi`, wildcard-style.
    fn glob_match_at(
        pattern: &str,
        pi: usize,
        plen: usize,
        path: &str,
        qi: usize,
        qlen: usize,
    ) -> (r: bool)
        requires
            plen == pattern@.len(),
            qlen == path@.len(),
            pi <= plen,
            qi <= qlen,
        ensures
            r == path_pattern_matches(pattern@.skip(pi as int), path@.skip(qi as int)),
        decreases plen - pi, qlen - qi,
    {
        let ghost tail_pat = pattern@.skip(pi as int);
        let ghost tail_path = path@.skip(qi as int);
        if pi == plen {
            proof {
                assert(tail_pat =~= Seq::<char>::empty());
            }
            return qi == qlen;
        }
        proof {
            assert(tail_pat[0] == pattern@[pi as int]);
            assert(tail_pat.drop_first() =~= pattern@.skip(pi + 1));
            if qi < qlen {
                assert(tail_path[0] == path@[qi as int]);
                assert(tail_path.drop_first() =~= path@.skip(qi + 1));
            }
        }
        if pattern.get_char(pi) == '*' {
            if Self::glob_match_at(pattern, pi + 1, plen, path, qi, qlen) {
                return true;
            }
            if qi < qlen {
                return Self::glob_match_at(pattern, pi, plen, path, qi + 1, qlen);
            }
            return false;
        }
        if qi == qlen {
            return false;
        }
        if pattern.get_char(pi) != path.get_char(qi) {
            return false;
        }
        Self::glob_match_at(pattern, pi + 1, plen, path, qi + 1, qlen)
    }

    /// Whether some pattern in the list grants the path.
    fn check_file_access(&self, allowed_paths: &Vec<String>, path: &str) -> (r: bool)
        ensures
            r == some_pattern_matches(allowed_paths.deep_view(), path@),
    {
        let n = allowed_paths.len();
        let mut i: usize = 0;
        while i < n
            invariant
                n == allowed_paths@.len(),
                i <= n,
                forall|j: int|
                    0 <= j < i ==> !(#[trigger] path_pattern_matches(
                        allowed_paths.deep_view()[j],
                        path@,
                    )),
            decreases n - i,
        {
            proof {
                assert(allowed_paths.deep_view()[i as int] == allowed_paths@[i as int]@);
            }
            if Self::path_matches(allowed_paths[i].as_str(), path) {
                proof {
                    assert(path_pattern_matches(allowed_paths.deep_view()[i as int], path@));
                }
                return true;
            }
            i += 1;
        }
        false
    }

    /// Whether the command permissions grant a full command line.
    fn check_command(&self, cmd_perms: &CommandPermissions, command: &str) -> (r: bool)
        ensures
            r == command_granted(
                cmd_perms.whitelist.deep_view(),
                cmd_perms.blacklist.deep_view(),
                command@,
            ),
    {
        let binary = first_token_str(command);
        let nb = cmd_perms.blacklist.len();
        let mut i: usize = 0;
        while i < nb
            invariant
                nb == cmd_perms.blacklist@.len(),
                i <= nb,
                forall|j: int|
                    0 <= j < i ==> !contains_seq(
                        command@,
                        #[trigger] cmd_perms.blacklist.deep_view()[j],
                    ),
            decreases nb - i,
        {
            proof {
                assert(cmd_perms.blacklist.deep_view()[i as int] == cmd_perms.blacklist@[
                    i as int
                ]@);
            }
            if str_contains(command, cmd_perms.blacklist[i].as_str()) {
                return false;
            }
            i += 1;
        }
        let nw = cmd_perms.whitelist.len();
        let mut k: usize = 0;
        while k < nw
            invariant
                nb == cmd_perms.blacklist@.len(),
                nw == cmd_perms.whitelist@.len(),
                k <= nw,
                binary@ == first_token(command@),
                forall|j: int|
                    0 <= j < nb ==> !contains_seq(
                        command@,
                        #[trigger] cmd_perms.blacklist.deep_view()[j],
                    ),
                forall|j: int|
                    0 <= j < k ==> (#[trigger] cmd_perms.whitelist.deep_view()[j]) != first_token(
                        command@,
                    ),
            decreases nw - k,
        {
            proof {
                assert(cmd_perms.whitelist.deep_view()[k as int] == cmd_perms.whitelist@[
                    k as int
                ]@);
            }
            if str_eq(binary.as_str(), cmd_perms.whitelist[k].as_str()) {
                return true;
            }
            k += 1;
        }
        false
    }

    /// Whether a resource increase stays within the limits.
    fn check_resource_increase(
        &self,
        limits: &ResourceLimits,
        resource: &str,
        requested: u64,
    ) -> (r: bool)
        ensures
            r == (if resource@ == "cpu"@ {
                requested <= limits.max_cpu_percent
            } else if resource@ == "memory"@ {
                requested <= limits.max_memory_gb
            } else if resource@ == "disk"@ {
                requested <= limits.max_disk_gb
            } else {
                false
            }),
    {
        if str_eq(resource, "cpu") {
            requested <= limits.max_cpu_percent
        } else if str_eq(resource, "memory") {
            requested <= limits.max_memory_gb
        } else if str_eq(resource, "disk") {
            requested <= limits.max_disk_gb
        } else {
            false
        }
    }

    /// Records one denial for the actor, saturating at the counter's maximum.
    fn track_failed_request(&mut self, llm_id: &str)
        requires
            old(self).wf(),
        ensures
            final(self).wf(),
            final(self).global_scope == old(self).global_scope,
            final(self).llm_scopes == old(self).llm_scopes,
            final(self).failed_count(llm_id@) == inc_sat(old(self).failed_count(llm_id@)),
            forall|o: Seq<char>|
                o != llm_id@ ==> final(self).failed_count(o) == old(self).failed_count(o),
    {
        let ghost m0 = self.failed_requests@;
        let n = self.failed_requests.len();
        let mut i: usize = 0;
        while i < n
            invariant
                old(self).wf(),
                self.global_scope == old(self).global_scope,
                self.llm_scopes == old(self).llm_scopes,
                self.failed_requests@ == m0,
                m0 == old(self).failed_requests@,
                n == m0.len(),
                i <= n,
                forall|j: int| 0 <= j < i ==> (#[trigger] m0[j]).0@ != llm_id@,
            decreases n - i,
        {
            if str_eq(self.failed_requests[i].0.as_str(), llm_id) {
                proof {
                    lemma_lookup_characterization(m0, llm_id@);
                    assert(map_lookup(m0, llm_id@) == Some(m0[i as int].1));
                }
                let (key, count) = self.failed_requests.remove(i);
                let bumped: u64 = if count < u64::MAX {
                    count + 1
                } else {
                    count
                };
                self.failed_requests.push((key, bumped));
                proof {
                    let m1 = self.failed_requests@;
                    assert(m1[m0.len() - 1].0@ == llm_id@);
                    lemma_update_entry(m0, m1, i as int, llm_id@);
                }
                return ;
            }
            i += 1;
        }
        proof {
            lemma_lookup_characterization(m0, llm_id@);
        }
        let fresh = llm_id.to_owned();
        self.failed_requests.push((fresh, 1));
        proof {
            let m1 = self.failed_requests@;
            assert(m1[m0.len() as int].0@ == llm_id@);
            lemma_append_entry(m0, m1, llm_id@);
        }
    }

    /// Checks one permission request for an actor against the applicable
    /// scope. Every denial increments the actor's consecutive-denial count;
    /// a grant leaves all state unchanged. The explanation is advisory.
    pub fn check_permission(
        &mut self,
        llm_id: &str,
        permission: &PermissionType,
        explanation: &str,
    ) -> (granted: bool)
        requires
            old(self).wf(),
        ensures
            final(self).wf(),
            granted == request_granted(old(self).scope_of(llm_id@), permission@),
            final(self).global_scope == old(self).global_scope,
            final(self).llm_scopes == old(self).llm_scopes,
            granted ==> final(self).failed_requests == old(self).failed_requests,
            !granted ==> final(self).failed_count(llm_id@) == inc_sat(
                old(self).failed_count(llm_id@),
            ),
            !granted ==> forall|o: Seq<char>|
                o != llm_id@ ==> final(self).failed_count(o) == old(self).failed_count(o),
    {
        let _ = explanation;
        let scope = self.get_scope(llm_id);
        let granted = match permission {
            PermissionType::FileRead { path } => self.check_file_access(
                &scope.file_system.read_paths,
                path.as_str(),
            ),
            PermissionType::FileWrite { path } => self.check_file_access(
                &scope.file_system.write_paths,
                path.as_str(),
            ),
            PermissionType::FileExecute { path } => self.check_file_access(
                &scope.file_system.execute_paths,
                path.as_str(),
            ),
            PermissionType::Command { command } => self.check_command(
                &scope.commands,
                command.as_str(),
            ),
            PermissionType::NetworkAccess { url: _ } => scope.network.outbound
                || scope.network.inbound,
            PermissionType::ResourceIncrease { resource, amount } => self.check_resource_increase(
                &scope.resources,
                resource.as_str(),
                *amount,
            ),
        };
        if !granted {
            self.track_failed_request(llm_id);
        }
        granted
    }

    /// The actor's current consecutive-denial count.
    pub fn get_failed_count(&self, llm_id: &str) -> (count: u64)
        requires
            self.wf(),
        ensures
            count == self.failed_count(llm_id@),
    {
        let n = self.failed_requests.len();
        let mut i: usize = 0;
        while i < n
            invariant
                self.wf(),
                n == self.failed_requests@.len(),
                i <= n,
                forall|j: int| 0 <= j < i ==> (#[trigger] self.failed_requests@[j]).0@ != llm_id@,
            decreases n - i,
        {
            if str_eq(self.failed_requests[i].0.as_str(), llm_id) {
                proof {
                    lemma_lookup_characterization(self.failed_requests@, llm_id@);
                }
                return self.failed_requests[i].1;
            }
            i += 1;
        }
        proof {
            lemma_lookup_characterization(self.failed_requests@, llm_id@);
        }
        0
    }

    /// Forgets the actor's denial count.
    pub fn reset_failed_count(&mut self, llm_id: &str)
        requires
            old(self).wf(),
        ensures
            final(self).wf(),
            final(self).global_scope == old(self).global_scope,
            final(self).llm_scopes == old(self).llm_scopes,
            final(self).failed_count(llm_id@) == 0,
            forall|o: Seq<char>|
                o != llm_id@ ==> final(self).failed_count(o) == old(self).failed_count(o),
    {
        let ghost m0 = self.failed_requests@;
        let n = self.failed_requests.len();
        let mut i: usize = 0;
        while i < n
            invariant
                old(self).wf(),
                self.global_scope == old(self).global_scope,
                self.llm_scopes == old(self).llm_scopes,
                self.failed_requests@ == m0,
                m0 == old(self).failed_requests@,
                n == m0.len(),
                i <= n,
                forall|j: int| 0 <= j < i ==> (#[trigger] m0[j]).0@ != llm_id@,
            decreases n - i,
        {
            if str_eq(self.failed_requests[i].0.as_str(), llm_id) {
                let _removed = self.failed_requests.remove(i);
                proof {
                    let m1 = self.failed_requests@;
                    lemma_remove_entry(m0, m1, i as int, llm_id@);
                }
                return ;
            }
            i += 1;
        }
        proof {
            lemma_lookup_characterization(m0, llm_id@);
        }
    }

    /// Replaces the global scope.
    pub fn set_global_scope(&mut self, scope: PermissionScope)
        requires
            old(self).wf(),
        ensures
            final(self).wf(),
            final(self).global_scope == scope,
            final(self).llm_scopes == old(self).llm_scopes,
            final(self).failed_requests == old(self).failed_requests,
    {
        self.global_scope = scope;
    }

    /// Sets or replaces the override scope for an actor.
    pub fn set_llm_scope(&mut self, llm_id: &str, scope: PermissionScope)
        requires
            old(self).wf(),
        ensures
            final(self).wf(),
            final(self).global_scope == old(self).global_scope,
            final(self).failed_requests == old(self).failed_requests,
            final(self).override_of(llm_id@) == Some(scope),
            forall|o: Seq<char>|
                o != llm_id@ ==> final(self).override_of(o) == old(self).override_of(o),
    {
        let ghost m0 = self.llm_scopes@;
        let n = self.llm_scopes.len();
        let mut i: usize = 0;
        let mut idx: usize = n;
        while i < n
            invariant
                old(self).wf(),
                self == old(self),
                m0 == self.llm_scopes@,
                n == m0.len(),
                i <= n,
                idx <= n,
                idx == n ==> forall|j: int| 0 <= j < i ==> (#[trigger] m0[j]).0@ != llm_id@,
                idx < n ==> m0[idx as int].0@ == llm_id@,
            decreases n - i,
        {
            if str_eq(self.llm_scopes[i].0.as_str(), llm_id) {
                idx = i;
                i = n;
            } else {
                i += 1;
            }
        }
        if idx < n {
            let (key, _old_scope) = self.llm_scopes.remove(idx);
            self.llm_scopes.push((key, scope));
            proof {
                let m1 = self.llm_scopes@;
                assert(m1[m0.len() - 1].0@ == llm_id@);
                lemma_update_entry(m0, m1, idx as int, llm_id@);
            }
        } else {
            let fresh = llm_id.to_owned();
            self.llm_scopes.push((fresh, scope));
            proof {
                let m1 = self.llm_scopes@;
                assert(m1[m0.len() as int].0@ == llm_id@);
                lemma_append_entry(m0, m1, llm_id@);
            }
        }
    }

    /// A copy of the global scope.
    pub fn get_global_scope(&self) -> (scope: PermissionScope)
        ensures
            scope@ == self.global(),
    {
        self.global_scope.clone()
    }
}

impl Default for PermissionManager {
    fn default() -> (m: Self)
        ensures
            m.wf(),
            m.global().is_default(),
            m.llm_scopes@.len() == 0,
            m.failed_requests@.len() == 0,
    {
        PermissionManager::new()
    }
}

} // verus!
