//! Cgroup resolution: mapping a pod's containers to cgroup inode numbers.
//!
//! The resolver works against a `CgroupTree`, a value that lists the
//! cgroup directories that exist (path and inode); the caller reads the
//! tree from the host filesystem. Candidate paths follow the containerd
//! layout under `kubepods.slice`, with the pod UID's dashes written as
//! underscores and one variant per quality-of-service class.

use vstd::prelude::*;
use vstd::string::{StrSliceExecFns, StringExecFns};

verus! {

/// Relies on String::push: appends exactly one character.
#[verifier::external_body]
fn push_char(s: &mut String, c: char)
    ensures
        final(s)@ == old(s)@ + seq![c],
{
    s.push(c);
}

/// The string with every dash written as an underscore.
pub open spec fn dash_to_underscore(s: Seq<char>) -> Seq<char> {
    Seq::new(s.len(), |i: int| if s[i] == '-' { '_' } else { s[i] })
}

/// The string with every underscore written as a dash.
pub open spec fn underscore_to_dash(s: Seq<char>) -> Seq<char> {
    Seq::new(s.len(), |i: int| if s[i] == '_' { '-' } else { s[i] })
}

/// Write every dash as an underscore (pod UIDs appear this way in
/// cgroup paths).
pub fn normalize_uid(s: &str) -> (r: String)
    ensures
        r@ == dash_to_underscore(s@),
{
    let len = s.unicode_len();
    let mut r = String::new();
    let mut i: usize = 0;
    while i < len
        invariant
            0 <= i <= len,
            len == s@.len(),
            r@ == dash_to_underscore(s@).subrange(0, i as int),
        decreases len - i,
    {
        let c = s.get_char(i);
        if c == '-' {
            push_char(&mut r, '_');
        } else {
            push_char(&mut r, c);
        }
        proof {
            assert(r@ =~= dash_to_underscore(s@).subrange(0, i + 1));
        }
        i += 1;
    }
    proof {
        assert(dash_to_underscore(s@).subrange(0, len as int) =~= dash_to_underscore(s@));
    }
    r
}

/// Write every underscore as a dash (back to the standard UID format).
pub fn denormalize_uid(s: &str) -> (r: String)
    ensures
        r@ == underscore_to_dash(s@),
{
    let len = s.unicode_len();
    let mut r = String::new();
    let mut i: usize = 0;
    while i < len
        invariant
            0 <= i <= len,
            len == s@.len(),
            r@ == underscore_to_dash(s@).subrange(0, i as int),
        decreases len - i,
    {
        let c = s.get_char(i);
        if c == '_' {
            push_char(&mut r, '-');
        } else {
            push_char(&mut r, c);
        }
        proof {
            assert(r@ =~= underscore_to_dash(s@).subrange(0, i + 1));
        }
        i += 1;
    }
    proof {
        assert(underscore_to_dash(s@).subrange(0, len as int) =~= underscore_to_dash(s@));
    }
    r
}

/// The position of the runtime separator "://" scanning down from `i`,
/// if it occurs at or before that position.
pub open spec fn last_sep_from(s: Seq<char>, i: int) -> Option<int>
    decreases i + 1,
        when i < s.len()
{
    if i < 0 {
        None
    } else if i + 3 <= s.len() && s[i] == ':' && s[i + 1] == '/' && s[i + 2] == '/' {
        Some(i)
    } else {
        last_sep_from(s, i - 1)
    }
}

/// The container id with any runtime prefix (such as "containerd://")
/// taken off.
pub open spec fn clean_cid(s: Seq<char>) -> Seq<char> {
    match last_sep_from(s, s.len() - 3) {
        None => s,
        Some(i) => s.subrange(i + 3, s.len() as int),
    }
}

/// Scan downward for the runtime separator.
fn find_sep_down(s: &str, i: usize, some_i: bool, len: usize) -> (r: Option<usize>)
    requires
        len == s@.len(),
        some_i ==> i < len,
        !some_i ==> i == 0,
    ensures
        match r {
            Some(j) => some_i && last_sep_from(s@, i as int) == Some(j as int) && j + 3 <= len,
            None => !some_i || last_sep_from(s@, i as int) is None,
        },
    decreases i + 1,
{
    if !some_i {
        return None;
    }
    if len >= 3 && i <= len - 3 {
        if s.get_char(i) == ':' && s.get_char(i + 1) == '/' && s.get_char(i + 2) == '/' {
            return Some(i);
        }
    }
    if i == 0 {
        proof {
            assert(last_sep_from(s@, -1) is None);
        }
        None
    } else {
        find_sep_down(s, i - 1, true, len)
    }
}

/// Take a runtime prefix such as "containerd://" off a container id.
pub fn clean_container_id(s: &str) -> (r: String)
    ensures
        r@ == clean_cid(s@),
{
    let len = s.unicode_len();
    let start: usize = if len >= 3 {
        match find_sep_down(s, len - 3, true, len) {
            Some(i) => i + 3,
            None => 0,
        }
    } else {
        proof {
            if len as int - 3 >= 0 {
            } else {
                assert(last_sep_from(s@, len as int - 3) is None);
            }
        }
        0
    };
    let r = s.substring_char(start, len);
    String::from_str(r)
}

/// One directory of the host cgroup filesystem: its path and its inode.
/// A `CgroupTree` is the caller's snapshot of the directories under the
/// cgroup root.
pub struct CgroupTree {
    pub entries: Vec<(String, u64)>,
}

/// The inode stored for a path, taking the first entry whose path reads
/// the same, starting at position `i`.
pub open spec fn tree_lookup_from(entries: Seq<(String, u64)>, path: Seq<char>, i: int) -> Option<
    u64,
>
    decreases entries.len() - i,
        when 0 <= i <= entries.len()
{
    if i == entries.len() {
        None
    } else if entries[i].0@ == path {
        Some(entries[i].1)
    } else {
        tree_lookup_from(entries, path, i + 1)
    }
}

/// The inode stored for a path, if the tree has the path.
pub open spec fn tree_lookup(entries: Seq<(String, u64)>, path: Seq<char>) -> Option<u64> {
    tree_lookup_from(entries, path, 0)
}

impl CgroupTree {
    /// An empty tree.
    pub fn new() -> (r: Self)
        ensures
            r.entries@.len() == 0,
    {
        CgroupTree { entries: Vec::new() }
    }

    /// Record one directory.
    pub fn add(&mut self, path: String, inode: u64)
        ensures
            final(self).entries@ == old(self).entries@.push((path, inode)),
    {
        self.entries.push((path, inode));
    }

    /// The inode of a path, if the tree has it.
    pub fn inode_of(&self, path: &String) -> (r: Option<u64>)
        ensures
            r == tree_lookup(self.entries@, path@),
    {
        let mut i: usize = 0;
        while i < self.entries.len()
            invariant
                0 <= i <= self.entries@.len(),
                tree_lookup(self.entries@, path@) == tree_lookup_from(
                    self.entries@,
                    path@,
                    i as int,
                ),
            decreases self.entries@.len() - i,
        {
            if self.entries[i].0 == *path {
                return Some(self.entries[i].1);
            }
            i += 1;
        }
        None
    }
}

/// The scope directory name of a containerd container.
pub open spec fn scope_name(cid: Seq<char>) -> Seq<char> {
    "cri-containerd-"@ + cid + ".scope"@
}

/// The candidate cgroup path for a pod's container in the guaranteed
/// class (no quality-of-service slice in between).
pub open spec fn plain_path(root: Seq<char>, uid: Seq<char>, cid: Seq<char>) -> Seq<char> {
    root + "/kubepods.slice/kubepods-pod"@ + uid + ".slice/"@ + scope_name(cid)
}

/// The candidate cgroup path for a pod's container in the burstable
/// class.
pub open spec fn burstable_path(root: Seq<char>, uid: Seq<char>, cid: Seq<char>) -> Seq<char> {
    root + "/kubepods.slice/kubepods-burstable.slice/kubepods-burstable-pod"@ + uid + ".slice/"@
        + scope_name(cid)
}

/// The candidate cgroup path for a pod's container in the best-effort
/// class.
pub open spec fn besteffort_path(root: Seq<char>, uid: Seq<char>, cid: Seq<char>) -> Seq<char> {
    root + "/kubepods.slice/kubepods-besteffort.slice/kubepods-besteffort-pod"@ + uid + ".slice/"@
        + scope_name(cid)
}

/// Where the resolver looks for a container, given the cache contents:
/// the guaranteed path first, then burstable, then best-effort; the
/// first that the tree has wins.
pub open spec fn resolve_spec(
    root: Seq<char>,
    pod_uid: Seq<char>,
    container_id: Seq<char>,
    entries: Seq<(String, u64)>,
) -> Option<u64> {
    let uid = dash_to_underscore(pod_uid);
    let cid = clean_cid(container_id);
    if tree_lookup(entries, plain_path(root, uid, cid)) is Some {
        tree_lookup(entries, plain_path(root, uid, cid))
    } else if tree_lookup(entries, burstable_path(root, uid, cid)) is Some {
        tree_lookup(entries, burstable_path(root, uid, cid))
    } else {
        tree_lookup(entries, besteffort_path(root, uid, cid))
    }
}

/// The position of the first "-pod" at or after `i`.
pub open spec fn find_pod(s: Seq<char>, i: int) -> Option<int>
    decreases s.len() - i,
        when 0 <= i <= s.len()
{
    if i + 4 > s.len() {
        None
    } else if s[i] == '-' && s[i + 1] == 'p' && s[i + 2] == 'o' && s[i + 3] == 'd' {
        Some(i)
    } else {
        find_pod(s, i + 1)
    }
}

/// Whether the string ends in ".slice".
pub open spec fn ends_slice(s: Seq<char>) -> bool {
    s.len() >= 6 && s.subrange(s.len() - 6, s.len() as int) == ".slice"@
}

/// The pod UID captured from one path segment: what stands between the
/// first "-pod" and the ".slice" suffix, with underscores written back
/// as dashes. Nothing when the segment is not a pod slice.
pub open spec fn seg_uid(seg: Seq<char>) -> Option<Seq<char>> {
    match find_pod(seg, 0) {
        None => None,
        Some(i) => if ends_slice(seg) && i + 10 <= seg.len() {
            Some(underscore_to_dash(seg.subrange(i + 4, seg.len() - 6)))
        } else {
            None
        },
    }
}

/// The position of the last '/' at or before `i`.
pub open spec fn last_slash_from(s: Seq<char>, i: int) -> Option<int>
    decreases i + 1,
        when i < s.len()
{
    if i < 0 {
        None
    } else if s[i] == '/' {
        Some(i)
    } else {
        last_slash_from(s, i - 1)
    }
}

/// Where the last path segment starts.
pub open spec fn seg_start(s: Seq<char>) -> int {
    match last_slash_from(s, s.len() - 1) {
        None => 0,
        Some(j) => j + 1,
    }
}

/// A slash found scanning down from `i` lies between 0 and `i`.
pub proof fn lemma_last_slash_bounds(s: Seq<char>, i: int)
    requires
        i < s.len(),
    ensures
        last_slash_from(s, i) matches Some(j) ==> 0 <= j <= i,
    decreases i + 1,
{
    if i >= 0 && s[i] != '/' {
        lemma_last_slash_bounds(s, i - 1);
    }
}

/// The last segment starts inside the string.
pub proof fn lemma_seg_start_bounds(s: Seq<char>)
    ensures
        0 <= seg_start(s) <= s.len(),
{
    lemma_last_slash_bounds(s, s.len() - 1);
}

/// The pod UID captured from a cgroup path: the deepest ancestor segment
/// that is a pod slice decides.
pub open spec fn extract_uid_spec(s: Seq<char>) -> Option<Seq<char>>
    decreases s.len(),
    via extract_uid_spec_decreases
{
    let st = seg_start(s);
    let seg = s.subrange(st, s.len() as int);
    match seg_uid(seg) {
        Some(u) => Some(u),
        None => if st == 0 {
            None
        } else {
            extract_uid_spec(s.subrange(0, st - 1))
        },
    }
}

#[via_fn]
proof fn extract_uid_spec_decreases(s: Seq<char>) {
    lemma_seg_start_bounds(s);
}

/// Scan upward for the first "-pod".
fn find_pod_exec(s: &str, i: usize, len: usize) -> (r: Option<usize>)
    requires
        len == s@.len(),
        i <= len,
    ensures
        match r {
            Some(j) => find_pod(s@, i as int) == Some(j as int) && j + 4 <= len,
            None => find_pod(s@, i as int) is None,
        },
    decreases len - i,
{
    if len >= 4 && i <= len - 4 {
        if s.get_char(i) == '-' && s.get_char(i + 1) == 'p' && s.get_char(i + 2) == 'o'
            && s.get_char(i + 3) == 'd' {
            Some(i)
        } else {
            find_pod_exec(s, i + 1, len)
        }
    } else {
        None
    }
}

/// Scan downward for the last '/'.
fn last_slash_exec(s: &str, i: usize, some_i: bool, len: usize) -> (r: Option<usize>)
    requires
        len == s@.len(),
        some_i ==> i < len,
        !some_i ==> i == 0,
    ensures
        match r {
            Some(j) => some_i && last_slash_from(s@, i as int) == Some(j as int) && j < len,
            None => !some_i || last_slash_from(s@, i as int) is None,
        },
    decreases i + 1,
{
    if !some_i {
        return None;
    }
    if s.get_char(i) == '/' {
        return Some(i);
    }
    if i == 0 {
        proof {
            assert(last_slash_from(s@, -1) is None);
        }
        None
    } else {
        last_slash_exec(s, i - 1, true, len)
    }
}

/// Whether the segment ends in ".slice".
fn ends_slice_exec(seg: &str, len: usize) -> (r: bool)
    requires
        len == seg@.len(),
    ensures
        r == ends_slice(seg@),
{
    if len < 6 {
        return false;
    }
    let tail = seg.substring_char(len - 6, len);
    String::from_str(tail) == String::from_str(".slice")
}

/// The pod UID captured from one path segment.
fn segment_uid(seg: &str, len: usize) -> (r: Option<String>)
    requires
        len == seg@.len(),
    ensures
        match r {
            Some(u) => seg_uid(seg@) == Some(u@),
            None => seg_uid(seg@) is None,
        },
{
    let i = match find_pod_exec(seg, 0, len) {
        Some(i) => i,
        None => {
            return None;
        },
    };
    if !ends_slice_exec(seg, len) {
        return None;
    }
    if len - i < 10 {
        return None;
    }
    let part = seg.substring_char(i + 4, len - 6);
    Some(denormalize_uid(part))
}

/// Extract a pod UID from a cgroup path: walk the segments from the
/// deepest up, and capture the UID from the first segment of the form
/// `...-pod<uid>.slice`, with underscores written back as dashes.
pub fn extract_pod_uid_from_path(path: &str) -> (r: Option<String>)
    ensures
        match r {
            Some(u) => extract_uid_spec(path@) == Some(u@),
            None => extract_uid_spec(path@) is None,
        },
    decreases path@.len(),
{
    let len = path.unicode_len();
    let st = if len == 0 {
        proof {
            assert(last_slash_from(path@, -1) is None);
        }
        0
    } else {
        match last_slash_exec(path, len - 1, true, len) {
            Some(j) => j + 1,
            None => 0,
        }
    };
    let seg = path.substring_char(st, len);
    let seg_len = len - st;
    proof {
        assert(seg@.len() == seg_len);
    }
    match segment_uid(seg, seg_len) {
        Some(u) => Some(u),
        None => {
            if st == 0 {
                None
            } else {
                let parent = path.substring_char(0, st - 1);
                extract_pod_uid_from_path(parent)
            }
        },
    }
}

/// The container id captured from a scope segment of the form
/// `cri-containerd-<id>.scope`.
pub open spec fn scope_cid(seg: Seq<char>) -> Option<Seq<char>> {
    if seg.len() >= 21 && seg.subrange(0, 15) == "cri-containerd-"@ && seg.subrange(
        seg.len() - 6,
        seg.len() as int,
    ) == ".scope"@ {
        Some(seg.subrange(15, seg.len() - 6))
    } else {
        None
    }
}

/// What one tree entry contributes to a scan: the inode, pod UID and
/// container id when its path is a containerd scope under a pod slice.
pub open spec fn scan_item(path: Seq<char>, inode: u64) -> Option<(u64, Seq<char>, Seq<char>)> {
    let seg = path.subrange(seg_start(path), path.len() as int);
    match scope_cid(seg) {
        None => None,
        Some(cid) => match extract_uid_spec(path) {
            None => None,
            Some(uid) => Some((inode, uid, cid)),
        },
    }
}

/// The reverse map a scan of the tree recovers, in tree order.
pub open spec fn scan_spec(entries: Seq<(String, u64)>) -> Seq<(u64, Seq<char>, Seq<char>)>
    decreases entries.len(),
{
    if entries.len() == 0 {
        Seq::empty()
    } else {
        let prev = scan_spec(entries.drop_last());
        match scan_item(entries.last().0@, entries.last().1) {
            None => prev,
            Some(t) => prev.push(t),
        }
    }
}

/// The views of a scan result's entries.
pub open spec fn triples_view(v: Seq<(u64, String, String)>) -> Seq<(u64, Seq<char>, Seq<char>)> {
    Seq::new(v.len(), |i: int| (v[i].0, v[i].1@, v[i].2@))
}

/// The container id of a scope segment, if it is one.
fn scope_cid_exec(seg: &str, len: usize) -> (r: Option<String>)
    requires
        len == seg@.len(),
    ensures
        match r {
            Some(c) => scope_cid(seg@) == Some(c@),
            None => scope_cid(seg@) is None,
        },
{
    if len < 21 {
        return None;
    }
    let head = seg.substring_char(0, 15);
    if !(String::from_str(head) == String::from_str("cri-containerd-")) {
        return None;
    }
    let tail = seg.substring_char(len - 6, len);
    if !(String::from_str(tail) == String::from_str(".scope")) {
        return None;
    }
    Some(String::from_str(seg.substring_char(15, len - 6)))
}

/// Resolver from pod and container identity to cgroup inode.
pub struct CgroupResolver {
    cgroup_root: String,
}

impl CgroupResolver {
    /// The cgroup filesystem root the resolver probes under.
    pub closed spec fn root(&self) -> Seq<char> {
        self.cgroup_root@
    }

    /// A resolver rooted at the host's cgroup filesystem.
    pub fn new() -> (r: Self)
        ensures
            r.root() == "/sys/fs/cgroup"@,
    {
        CgroupResolver { cgroup_root: String::from_str("/sys/fs/cgroup") }
    }

    /// A resolver rooted elsewhere (for testing).
    pub fn with_root(cgroup_root: String) -> (r: Self)
        ensures
            r.root() == cgroup_root@,
    {
        CgroupResolver { cgroup_root }
    }

    /// The candidate scope paths for a container, one per
    /// quality-of-service class, in the order the resolver probes them.
    pub fn candidate_paths(&self, pod_uid: &str, container_id: &str) -> (r: Vec<String>)
        ensures
            r@.len() == 3,
            r@[0]@ == plain_path(self.root(), dash_to_underscore(pod_uid@), clean_cid(
                container_id@,
            )),
            r@[1]@ == burstable_path(self.root(), dash_to_underscore(pod_uid@), clean_cid(
                container_id@,
            )),
            r@[2]@ == besteffort_path(self.root(), dash_to_underscore(pod_uid@), clean_cid(
                container_id@,
            )),
    {
        let uid = normalize_uid(pod_uid);
        let cid = clean_container_id(container_id);
        let mut scope = String::from_str("cri-containerd-");
        scope.append(cid.as_str());
        scope.append(".scope");
        let mut p0 = self.cgroup_root.clone();
        p0.append("/kubepods.slice/kubepods-pod");
        p0.append(uid.as_str());
        p0.append(".slice/");
        p0.append(scope.as_str());
        let mut p1 = self.cgroup_root.clone();
        p1.append("/kubepods.slice/kubepods-burstable.slice/kubepods-burstable-pod");
        p1.append(uid.as_str());
        p1.append(".slice/");
        p1.append(scope.as_str());
        let mut p2 = self.cgroup_root.clone();
        p2.append("/kubepods.slice/kubepods-besteffort.slice/kubepods-besteffort-pod");
        p2.append(uid.as_str());
        p2.append(".slice/");
        p2.append(scope.as_str());
        proof {
            assert(p0@ =~= plain_path(self.root(), uid@, cid@));
            assert(p1@ =~= burstable_path(self.root(), uid@, cid@));
            assert(p2@ =~= besteffort_path(self.root(), uid@, cid@));
        }
        let mut r: Vec<String> = Vec::new();
        r.push(p0);
        r.push(p1);
        r.push(p2);
        r
    }

    /// Resolve a container to its cgroup inode: the first candidate path
    /// that the tree has. `None` when no candidate exists in the tree.
    pub fn resolve(&self, pod_uid: &str, container_id: &str, tree: &CgroupTree) -> (r: Option<u64>)
        ensures
            r == resolve_spec(self.root(), pod_uid@, container_id@, tree.entries@),
    {
        let paths = self.candidate_paths(pod_uid, container_id);
        if let Some(inode) = tree.inode_of(&paths[0]) {
            return Some(inode);
        }
        if let Some(inode) = tree.inode_of(&paths[1]) {
            return Some(inode);
        }
        tree.inode_of(&paths[2])
    }

    /// Scan the tree for container scopes and recover the reverse map
    /// inode -> (pod UID, container id), in tree order.
    pub fn scan_all(&self, tree: &CgroupTree) -> (r: Vec<(u64, String, String)>)
        ensures
            triples_view(r@) == scan_spec(tree.entries@),
    {
        let mut r: Vec<(u64, String, String)> = Vec::new();
        let mut i: usize = 0;
        while i < tree.entries.len()
            invariant
                0 <= i <= tree.entries@.len(),
                triples_view(r@) == scan_spec(tree.entries@.subrange(0, i as int)),
            decreases tree.entries@.len() - i,
        {
            proof {
                assert(tree.entries@.subrange(0, i + 1).drop_last() =~= tree.entries@.subrange(
                    0,
                    i as int,
                ));
                assert(tree.entries@.subrange(0, i + 1).last() == tree.entries@[i as int]);
            }
            let path = &tree.entries[i].0;
            let inode = tree.entries[i].1;
            let len = path.as_str().unicode_len();
            let st = if len == 0 {
                proof {
                    assert(last_slash_from(path@, -1) is None);
                }
                0
            } else {
                match last_slash_exec(path.as_str(), len - 1, true, len) {
                    Some(j) => j + 1,
                    None => 0,
                }
            };
            let seg = path.as_str().substring_char(st, len);
            if let Some(cid) = scope_cid_exec(seg, len - st) {
                if let Some(uid) = extract_pod_uid_from_path(path.as_str()) {
                    let ghost prev = r@;
                    r.push((inode, uid, cid));
                    proof {
                        assert(triples_view(r@) =~= triples_view(prev).push(
                            (inode, uid@, cid@),
                        ));
                    }
                }
            }
            i += 1;
        }
        proof {
            assert(tree.entries@.subrange(0, tree.entries@.len() as int) =~= tree.entries@);
        }
        r
    }
}

} // verus!
