use vstd::prelude::*;
use vstd::multiset::Multiset;
use vstd::string::StrSliceExecFns;
use crate::protocol::Response;

verus! {

/// Identity and metadata of a mod archive. `mod_id` is the key that must be
/// unique within one server's mod directory.
#[derive(Debug, Clone, PartialEq, Eq)]
pub struct ModInfo {
    pub filename: String,
    pub path: String,
    pub mod_id: String,
    pub name: Option<String>,
    pub description: Option<String>,
    pub version: String,
    pub logo: Option<Vec<u8>>,
    pub url: Option<String>,
    pub credits: Option<String>,
    pub authors: Option<Vec<String>>,
}

impl ModInfo {
    /// The display name, falling back to the mod id.
    pub open spec fn display_name_spec(&self) -> Seq<char> {
        match self.name {
            Some(n) => n@,
            None => self.mod_id@,
        }
    }

    pub fn name(&self) -> (r: &str)
        ensures
            r@ == self.display_name_spec(),
    {
        match &self.name {
            Some(n) => n.as_str(),
            None => self.mod_id.as_str(),
        }
    }
}

} // verus!

verus! {

/// Lexicographic order of mod ids, character by character.
pub open spec fn id_le(a: Seq<char>, b: Seq<char>) -> bool
    decreases a.len(),
{
    if a.len() == 0 {
        true
    } else if b.len() == 0 {
        false
    } else if (a[0] as u32) != (b[0] as u32) {
        (a[0] as u32) < (b[0] as u32)
    } else {
        id_le(a.drop_first(), b.drop_first())
    }
}

pub proof fn lemma_id_le_total(a: Seq<char>, b: Seq<char>)
    ensures
        id_le(a, b) || id_le(b, a),
    decreases a.len(),
{
    if a.len() > 0 && b.len() > 0 && (a[0] as u32) == (b[0] as u32) {
        lemma_id_le_total(a.drop_first(), b.drop_first());
    }
}

pub proof fn lemma_id_le_transitive(a: Seq<char>, b: Seq<char>, c: Seq<char>)
    requires
        id_le(a, b),
        id_le(b, c),
    ensures
        id_le(a, c),
    decreases a.len(),
{
    if a.len() > 0 && b.len() > 0 && c.len() > 0 && (a[0] as u32) == (b[0] as u32) && (b[0] as u32) == (c[0] as u32) {
        lemma_id_le_transitive(a.drop_first(), b.drop_first(), c.drop_first());
    }
}

/// Compares two mod ids in the order of `id_le`.
pub fn id_le_exec(a: &str, b: &str) -> (r: bool)
    ensures
        r == id_le(a@, b@),
{
    let n = a.unicode_len();
    let m = b.unicode_len();
    let mut i: usize = 0;
    proof {
        assert(a@.subrange(0, n as int) =~= a@);
        assert(b@.subrange(0, m as int) =~= b@);
    }
    while i < n && i < m
        invariant
            n == a@.len(),
            m == b@.len(),
            i <= n,
            i <= m,
            id_le(a@, b@) == id_le(a@.subrange(i as int, n as int), b@.subrange(i as int, m as int)),
        decreases n - i,
    {
        let x = a.get_char(i);
        let y = b.get_char(i);
        proof {
            let sa = a@.subrange(i as int, n as int);
            let sb = b@.subrange(i as int, m as int);
            assert(sa.drop_first() =~= a@.subrange(i + 1, n as int));
            assert(sb.drop_first() =~= b@.subrange(i + 1, m as int));
            assert(sa[0] == x && sb[0] == y);
        }
        if (x as u32) != (y as u32) {
            return (x as u32) < (y as u32);
        }
        i = i + 1;
    }
    proof {
        let sa = a@.subrange(i as int, n as int);
        let sb = b@.subrange(i as int, m as int);
        assert(sa.len() == 0 || sb.len() == 0);
    }
    i == n
}

/// The mod ids of a listing are in ascending order.
pub open spec fn sorted_by_id(mods: Seq<ModInfo>) -> bool {
    forall|i: int, j: int| 0 <= i < j < mods.len() ==> id_le(#[trigger] mods[i].mod_id@, #[trigger] mods[j].mod_id@)
}

/// Orders a listing by mod id (a stable insertion sort), for pagination that does
/// not shift between calls.
pub fn sort_mods(mods: Vec<ModInfo>) -> (r: Vec<ModInfo>)
    ensures
        sorted_by_id(r@),
        r@.to_multiset() == mods@.to_multiset(),
{
    broadcast use vstd::seq_lib::group_to_multiset_ensures, vstd::multiset::group_multiset_axioms;
    let mut input = mods;
    let mut out: Vec<ModInfo> = Vec::new();
    let ghost orig = input@;
    proof {
        assert(out@.to_multiset() =~= Multiset::<ModInfo>::empty());
    }
    while input.len() > 0
        invariant
            sorted_by_id(out@),
            out@.to_multiset().add(input@.to_multiset()) == orig.to_multiset(),
        decreases input.len(),
    {
        let ghost before_in = input@;
        let x = input.remove(0);
        proof {
            vstd::seq_lib::to_multiset_remove(before_in, 0);
            assert(input@ =~= before_in.remove(0));
            assert(before_in.contains(x)) by { assert(before_in[0] == x); }
            vstd::seq_lib::to_multiset_contains(before_in, x);
            assert(before_in.to_multiset().count(x) > 0);
        }
        let mut p: usize = 0;
        while p < out.len() && id_le_exec(out[p].mod_id.as_str(), x.mod_id.as_str())
            invariant
                p <= out.len(),
                forall|k: int| 0 <= k < p ==> id_le(#[trigger] out@[k].mod_id@, x.mod_id@),
            decreases out.len() - p,
        {
            p = p + 1;
        }
        proof {
            assert forall|k: int| p <= k < out.len() implies id_le(x.mod_id@, #[trigger] out@[k].mod_id@) by {
                if id_le(out@[k].mod_id@, x.mod_id@) {
                    lemma_id_le_transitive(out@[p as int].mod_id@, out@[k].mod_id@, x.mod_id@);
                }
                lemma_id_le_total(x.mod_id@, out@[k].mod_id@);
            }
        }
        let ghost before_out = out@;
        out.insert(p, x);
        proof {
            vstd::seq_lib::to_multiset_insert(before_out, p as int, x);
            assert forall|i: int, j: int| 0 <= i < j < out@.len() implies id_le(#[trigger] out@[i].mod_id@, #[trigger] out@[j].mod_id@) by {
                if j < p {
                } else if j == p {
                } else if i < p {
                    assert(out@[j] == before_out[j - 1]);
                    lemma_id_le_transitive(out@[i].mod_id@, x.mod_id@, out@[j].mod_id@);
                } else if i == p {
                    assert(out@[j] == before_out[j - 1]);
                } else {
                    assert(out@[i] == before_out[i - 1]);
                    assert(out@[j] == before_out[j - 1]);
                }
            }
            assert(out@.to_multiset().add(input@.to_multiset()) =~= orig.to_multiset());
        }
    }
    proof {
        assert(input@.to_multiset() =~= Multiset::<ModInfo>::empty());
        assert(out@.to_multiset().add(Multiset::<ModInfo>::empty()) =~= out@.to_multiset());
    }
    out
}

/// One page of a sorted listing: `per_page == 0` asks for everything; otherwise the
/// page is the slice from `per_page * page`, clipped to the listing, and it is the
/// last one when it holds fewer than `per_page` entries.
pub open spec fn page_bounds(len: nat, per_page: u64, page: u64) -> (nat, nat) {
    let offset = if per_page as int * page as int > len { len } else { (per_page as int * page as int) as nat };
    let end = if offset + per_page as int > len { len } else { (offset + per_page as int) as nat };
    (offset, end)
}

/// The listing carried by a `Mods` response.
pub open spec fn response_mods(r: Response) -> Seq<ModInfo> {
    match r {
        Response::Mods(v, _) => v@,
        _ => Seq::empty(),
    }
}

/// Whether a `Mods` response says it holds the last page.
pub open spec fn response_last_page(r: Response) -> bool {
    match r {
        Response::Mods(_, last) => last,
        _ => false,
    }
}

/// Sorts the listing of a mod directory and cuts out the requested page.
pub fn list_mods_paged(per_page: u64, page: u64, mods: Vec<ModInfo>) -> (r: Response)
    ensures
        exists|sorted: Seq<ModInfo>| {
            &&& #[trigger] sorted_by_id(sorted)
            &&& sorted.to_multiset() == mods@.to_multiset()
            &&& if per_page == 0 {
                &&& r is Mods
                &&& response_mods(r) == sorted
                &&& response_last_page(r)
            } else {
                let (offset, end) = page_bounds(sorted.len(), per_page, page);
                &&& r is Mods
                &&& response_mods(r) == sorted.subrange(offset as int, end as int)
                &&& response_last_page(r) == (end - offset < per_page)
            }
        },
{
    let mut sorted = sort_mods(mods);
    let ghost all = sorted@;
    if per_page == 0 {
        return Response::Mods(sorted, true);
    }
    let len = sorted.len();
    proof {
        assert((per_page as int) * (page as int) <= 18446744073709551615int * 18446744073709551615int)
            by (nonlinear_arith)
            requires
                per_page <= 18446744073709551615int,
                page <= 18446744073709551615int,
        ;
    }
    let product: u128 = (per_page as u128) * (page as u128);
    let offset: usize = if product > len as u128 { len } else { product as usize };
    let end: usize = if (offset as u128) + (per_page as u128) > len as u128 { len } else { offset + per_page as usize };
    sorted.truncate(end);
    let slice = sorted.split_off(offset);
    proof {
        assert(slice@ =~= all.subrange(offset as int, end as int));
    }
    let finish = ((end - offset) as u64) < per_page;
    Response::Mods(slice, finish)
}

} // verus!

verus! {

/// Ids the game itself uses, which no mod may claim.
pub fn reserved_mod_id(s: &str) -> (r: bool)
    ensures
        r == (s@ == "minecraft"@ || s@ == "forge"@),
{
    crate::text::same_text(s, "minecraft") || crate::text::same_text(s, "forge")
}

/// A file name with the archive extension, added when missing.
pub open spec fn with_jar(name: Seq<char>) -> Seq<char> {
    if name.len() >= 4 && name.subrange(name.len() - 4, name.len() as int) == ".jar"@ {
        name
    } else {
        name + ".jar"@
    }
}

/// Gives a file name the archive extension when it lacks it.
pub fn normalize_filename(name: String) -> (r: String)
    ensures
        r@ == with_jar(name@),
{
    let mut name = name;
    proof { reveal_strlit(".jar"); }
    if !crate::text::ends_with_text(name.as_str(), ".jar") {
        name.append(".jar");
    }
    name
}

/// `name` followed by `k` copies of the de-duplicating suffix.
pub open spec fn with_suffixes(name: Seq<char>, k: nat) -> Seq<char>
    decreases k,
{
    if k == 0 {
        name
    } else {
        with_suffixes(name, (k - 1) as nat) + "-2.jar"@
    }
}

/// Whether some entry of `names` is `name`.
pub open spec fn occupied_by(names: Seq<String>, name: Seq<char>) -> bool {
    exists|i: int| 0 <= i < names.len() && #[trigger] names[i]@ == name
}

fn is_occupied(names: &Vec<String>, name: &str) -> (r: bool)
    ensures
        r == occupied_by(names@, name@),
{
    let mut i: usize = 0;
    while i < names.len()
        invariant
            i <= names.len(),
            forall|k: int| 0 <= k < i ==> names@[k]@ != name@,
        decreases names.len() - i,
    {
        if crate::text::same_text(names[i].as_str(), name) {
            return true;
        }
        i = i + 1;
    }
    false
}

/// The destination file name in a directory whose files are `occupied`: the
/// preferred name when free, else the first free name with the suffix appended
/// once or more.
pub fn destination_name(name: &str, occupied: &Vec<String>) -> (r: String)
    ensures
        !occupied_by(occupied@, r@),
        exists|k: nat| r@ == #[trigger] with_suffixes(name@, k)
            && forall|j: nat| j < k ==> occupied_by(occupied@, #[trigger] with_suffixes(name@, j)),
{
    let mut longest: usize = 0;
    let mut i: usize = 0;
    while i < occupied.len()
        invariant
            i <= occupied.len(),
            forall|k: int| 0 <= k < i ==> occupied@[k]@.len() <= longest,
        decreases occupied.len() - i,
    {
        let l = occupied[i].as_str().unicode_len();
        if l > longest {
            longest = l;
        }
        i = i + 1;
    }
    let mut candidate = name.to_owned();
    let ghost mut k: nat = 0;
    loop
        invariant
            forall|j: int| 0 <= j < occupied.len() ==> occupied@[j]@.len() <= longest,
            candidate@ == with_suffixes(name@, k),
            forall|j: nat| j < k ==> occupied_by(occupied@, #[trigger] with_suffixes(name@, j)),
        decreases longest + 6 - candidate@.len(),
    {
        if !is_occupied(occupied, candidate.as_str()) {
            return candidate;
        }
        proof {
            reveal_strlit("-2.jar");
            let w = choose|w: int| 0 <= w < occupied.len() && #[trigger] occupied@[w]@ == candidate@;
            assert(candidate@.len() <= longest);
        }
        candidate.append("-2.jar");
        proof {
            k = k + 1;
            assert(candidate@ == with_suffixes(name@, k));
        }
    }
}

/// Whether some installed mod has id `id`.
pub open spec fn has_mod_id(installed: Seq<ModInfo>, id: Seq<char>) -> bool {
    exists|i: int| 0 <= i < installed.len() && #[trigger] installed[i].mod_id@ == id
}

/// The first installed mod with id `id`.
pub fn find_mod(installed: &Vec<ModInfo>, id: &str) -> (r: Option<usize>)
    ensures
        match r {
            Some(i) => i < installed.len() && installed@[i as int].mod_id@ == id@
                && forall|k: int| 0 <= k < i ==> installed@[k].mod_id@ != id@,
            None => !has_mod_id(installed@, id@),
        },
{
    let mut i: usize = 0;
    while i < installed.len()
        invariant
            i <= installed.len(),
            forall|k: int| 0 <= k < i ==> installed@[k].mod_id@ != id@,
        decreases installed.len() - i,
    {
        if crate::text::same_text(installed[i].mod_id.as_str(), id) {
            return Some(i);
        }
        i = i + 1;
    }
    None
}

/// What installing a staged archive amounts to.
#[derive(Debug, Clone, PartialEq, Eq)]
pub enum InstallPlan {
    /// A mod with the same id is installed: nothing changes, the staged file stays.
    Conflict,
    /// Move the staged file into the mod directory under this name.
    Move(String),
}

/// Plans the installation of a staged mod whose id is `staged_id`: a conflict when
/// that id is installed already, otherwise a move under the preferred name (with the
/// archive extension), de-duplicated against the directory's `occupied` file names.
pub fn plan_install(installed: &Vec<ModInfo>, staged_id: &str, preferred: String, occupied: &Vec<String>) -> (r: InstallPlan)
    ensures
        has_mod_id(installed@, staged_id@) <==> r == InstallPlan::Conflict,
        r matches InstallPlan::Move(dest) ==> !occupied_by(occupied@, dest@)
            && exists|k: nat| dest@ == #[trigger] with_suffixes(with_jar(preferred@), k)
                && forall|j: nat| j < k ==> occupied_by(occupied@, #[trigger] with_suffixes(with_jar(preferred@), j)),
{
    match find_mod(installed, staged_id) {
        Some(_) => InstallPlan::Conflict,
        None => {
            let name = normalize_filename(preferred);
            InstallPlan::Move(destination_name(name.as_str(), occupied))
        },
    }
}

/// What updating a mod with a staged archive amounts to.
#[derive(Debug, Clone, PartialEq, Eq)]
pub enum UpdatePlan {
    /// No installed mod has the staged archive's id.
    NoSuchMod,
    /// Delete the old file at this path, then move the staged file in under this name.
    Replace(String, String),
}

/// Plans an update: it needs an installed mod with the staged archive's id, whose
/// file is replaced; the new file's name is chosen as for an installation.
pub fn plan_update(installed: &Vec<ModInfo>, staged_id: &str, preferred: String, occupied: &Vec<String>) -> (r: UpdatePlan)
    ensures
        !has_mod_id(installed@, staged_id@) <==> r == UpdatePlan::NoSuchMod,
        r matches UpdatePlan::Replace(old_path, dest) ==> (exists|i: int| 0 <= i < installed.len()
            && #[trigger] installed@[i].mod_id@ == staged_id@ && installed@[i].path@ == old_path@
            && forall|k: int| 0 <= k < i ==> installed@[k].mod_id@ != staged_id@)
            && !occupied_by(occupied@, dest@)
            && exists|k: nat| dest@ == #[trigger] with_suffixes(with_jar(preferred@), k)
                && forall|j: nat| j < k ==> occupied_by(occupied@, #[trigger] with_suffixes(with_jar(preferred@), j)),
{
    match find_mod(installed, staged_id) {
        None => UpdatePlan::NoSuchMod,
        Some(i) => {
            let old_path = installed[i].path.clone();
            let name = normalize_filename(preferred);
            UpdatePlan::Replace(old_path, destination_name(name.as_str(), occupied))
        },
    }
}

/// The file to delete to uninstall mod `id`, or `None` when it is not installed.
pub fn plan_uninstall(installed: &Vec<ModInfo>, id: &str) -> (r: Option<String>)
    ensures
        r is None <==> !has_mod_id(installed@, id@),
        r matches Some(path) ==> exists|i: int| 0 <= i < installed.len()
            && #[trigger] installed@[i].mod_id@ == id@ && installed@[i].path@ == path@
            && forall|k: int| 0 <= k < i ==> installed@[k].mod_id@ != id@,
{
    match find_mod(installed, id) {
        None => None,
        Some(i) => Some(installed[i].path.clone()),
    }
}

/// Looks a mod up by id in a directory listing.
pub fn query_mod(installed: Vec<ModInfo>, id: &str) -> (r: Option<ModInfo>)
    ensures
        r is None <==> !has_mod_id(installed@, id@),
        r matches Some(m) ==> exists|i: int| 0 <= i < installed.len()
            && installed@[i] == m && #[trigger] installed@[i].mod_id@ == id@
            && forall|k: int| 0 <= k < i ==> installed@[k].mod_id@ != id@,
{
    match find_mod(&installed, id) {
        None => None,
        Some(i) => {
            let mut installed = installed;
            let ghost all = installed@;
            let m = installed.swap_remove(i);
            proof { assert(all[i as int] == m); }
            Some(m)
        },
    }
}

/// The answers after which the staged file of an installation or update is kept:
/// it was moved into place, or it stays for the caller to retry as an update.
/// On every other answer the staged file is deleted.
pub open spec fn keeps_staged_file_spec(r: Response) -> bool {
    r is Success || r is ModConflict
}

pub fn keeps_staged_file(r: &Response) -> (b: bool)
    ensures
        b == keeps_staged_file_spec(*r),
{
    match r {
        Response::Success => true,
        Response::ModConflict => true,
        _ => false,
    }
}

} // verus!
