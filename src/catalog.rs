//! The catalog of crates, versions and dependencies, and the atomic step
//! that admits a new version into it.
use vstd::prelude::*;
use vstd::string::*;
use crate::deps::{clone_opt, clone_strings, CrateDependency, DependencyKind, DependencyProblem, dependency_check, opt_view, strings_view, validate_dependency};
use crate::names::{canon, contains_char, first_index, same_canonical_name};

verus! {

/// Seconds in the window over which new versions of a crate are counted.
pub const DAILY_WINDOW_SECONDS: i64 = 86400;

/// An owner of a crate: a user, or a team whose members may publish.
#[derive(PartialEq, Eq, Structural, Clone, Copy, Debug)]
pub enum Owner {
    User(u64),
    Team(u64),
}

/// What a principal may do with a crate, from least to most.
#[derive(PartialEq, Eq, Structural, Clone, Copy, Debug)]
pub enum Rights {
    NoAccess,
    Read,
    Publish,
    Full,
}

impl Rights {
    pub open spec fn level(self) -> int {
        match self {
            Rights::NoAccess => 0,
            Rights::Read => 1,
            Rights::Publish => 2,
            Rights::Full => 3,
        }
    }

    /// Whether these rights allow publishing.
    pub fn can_publish(&self) -> (r: bool)
        ensures
            r == (self.level() >= Rights::Publish.level()),
    {
        match self {
            Rights::Publish | Rights::Full => true,
            _ => false,
        }
    }
}

/// Which authorization scope a publish asks for.
#[derive(PartialEq, Eq, Structural, Clone, Copy, Debug)]
pub enum EndpointScope {
    PublishNew,
    PublishUpdate,
}

/// A row of the crate table.
#[derive(Debug)]
pub struct CrateRecord {
    pub id: usize,
    pub name: String,
    pub description: Option<String>,
    pub homepage: Option<String>,
    pub documentation: Option<String>,
    pub readme: Option<String>,
    pub repository: Option<String>,
    /// An upload size limit for this crate in place of the global one.
    pub max_upload_size: Option<u64>,
    /// A feature limit for this crate in place of the global one.
    pub max_features: Option<usize>,
    pub keywords: Vec<String>,
    pub categories: Vec<String>,
}

/// A row of the owner relation.
#[derive(Debug)]
pub struct OwnerRecord {
    pub crate_id: usize,
    pub owner: Owner,
}

/// A row of the version table.
#[derive(Debug)]
pub struct VersionRecord {
    pub id: usize,
    pub crate_id: usize,
    pub num: String,
    pub features: Vec<(String, Vec<String>)>,
    pub license: Option<String>,
    pub crate_size: u64,
    pub published_by: u64,
    pub checksum: String,
    pub links: Option<String>,
    pub rust_version: Option<String>,
    pub created_at: i64,
    /// The verified email address of the publisher.
    pub publisher_email: String,
    /// The API token the version was published with, if any.
    pub api_token_id: Option<u64>,
}

/// A row of the dependency table.
#[derive(Debug)]
pub struct DependencyRecord {
    pub version_id: usize,
    pub crate_id: usize,
    pub req: String,
    pub kind: DependencyKind,
    pub optional: bool,
    pub default_features: bool,
    pub features: Vec<String>,
    pub target: Option<String>,
    pub explicit_name: Option<String>,
}

/// A background job, recorded with the data it commits with.
#[derive(Debug)]
pub enum Job {
    RenderAndUploadReadme {
        version_id: usize,
        readme: String,
        readme_file: String,
        repository: Option<String>,
        path_in_vcs: Option<String>,
    },
    SyncToIndex { crate_name: String },
}

/// The catalog: every table that a publish reads or writes.
#[derive(Debug)]
pub struct Catalog {
    pub crates: Vec<CrateRecord>,
    pub owners: Vec<OwnerRecord>,
    pub versions: Vec<VersionRecord>,
    pub dependencies: Vec<DependencyRecord>,
    /// The category slugs that exist.
    pub categories: Vec<String>,
    /// Names that no crate may take.
    pub reserved_names: Vec<String>,
    pub jobs: Vec<Job>,
}

/// The part of a version number before the first `+`.
pub open spec fn strip_build(s: Seq<char>) -> Seq<char> {
    if contains_char(s, '+') {
        s.subrange(0, first_index(s, '+'))
    } else {
        s
    }
}

impl Catalog {
    /// The invariants of the tables: ids are positions, crate names are
    /// distinct in canonical form, rows refer to rows that exist, and no two
    /// versions of a crate share a number once build metadata is stripped.
    pub open spec fn wf(&self) -> bool {
        &&& forall|i: int| 0 <= i < self.crates@.len() ==> (#[trigger] self.crates@[i]).id == i
        &&& forall|i: int, j: int|
            0 <= i < self.crates@.len() && 0 <= j < self.crates@.len() && i != j ==> canon(
                #[trigger] self.crates@[i].name@,
            ) != canon(#[trigger] self.crates@[j].name@)
        &&& forall|i: int|
            0 <= i < self.owners@.len() ==> (#[trigger] self.owners@[i]).crate_id
                < self.crates@.len()
        &&& forall|i: int|
            0 <= i < self.versions@.len() ==> (#[trigger] self.versions@[i]).id == i
                && self.versions@[i].crate_id < self.crates@.len()
        &&& forall|i: int, j: int|
            0 <= i < self.versions@.len() && 0 <= j < self.versions@.len() && i != j
                && self.versions@[i].crate_id == self.versions@[j].crate_id ==> strip_build(
                #[trigger] self.versions@[i].num@,
            ) != strip_build(#[trigger] self.versions@[j].num@)
        &&& forall|i: int|
            0 <= i < self.dependencies@.len() ==> (#[trigger] self.dependencies@[i]).version_id
                < self.versions@.len() && self.dependencies@[i].crate_id < self.crates@.len()
    }

    /// Whether a crate holds `name` in canonical form.
    pub open spec fn has_crate(&self, name: Seq<char>) -> bool {
        exists|i: int| 0 <= i < self.crates@.len() && canon(#[trigger] self.crates@[i].name@) == canon(name)
    }

    /// The crate that holds `name` in canonical form.
    pub open spec fn crate_index(&self, name: Seq<char>) -> Option<int> {
        if self.has_crate(name) {
            Some(
                choose|i: int|
                    0 <= i < self.crates@.len() && canon(#[trigger] self.crates@[i].name@) == canon(name),
            )
        } else {
            None
        }
    }

    /// Whether `name` is reserved, in canonical form.
    pub open spec fn is_reserved(&self, name: Seq<char>) -> bool {
        exists|i: int| 0 <= i < self.reserved_names@.len() && canon(#[trigger] self.reserved_names@[i]@) == canon(name)
    }

    pub open spec fn owned_by_user(&self, k: int, user: u64) -> bool {
        exists|i: int|
            0 <= i < self.owners@.len() && (#[trigger] self.owners@[i]).crate_id == k
                && self.owners@[i].owner == Owner::User(user)
    }

    pub open spec fn owned_by_team_of(&self, k: int, teams: Seq<u64>) -> bool {
        exists|i: int, t: int|
            0 <= i < self.owners@.len() && 0 <= t < teams.len() && (#[trigger] self.owners@[i]).crate_id == k
                && self.owners@[i].owner == Owner::Team(#[trigger] teams[t])
    }

    /// The rights of a user, who belongs to `teams`, on crate `k`: full for
    /// a user owner, publish for a member of a team owner, none otherwise.
    pub open spec fn rights_spec(&self, k: int, user: u64, teams: Seq<u64>) -> Rights {
        if self.owned_by_user(k, user) {
            Rights::Full
        } else if self.owned_by_team_of(k, teams) {
            Rights::Publish
        } else {
            Rights::NoAccess
        }
    }

    /// How many of the first `n` versions belong to crate `k` and were
    /// created after `since`.
    pub open spec fn count_recent(&self, k: int, since: int, n: int) -> nat
        decreases n,
    {
        if n <= 0 {
            0
        } else {
            self.count_recent(k, since, n - 1) + if self.versions@[n - 1].crate_id == k
                && self.versions@[n - 1].created_at > since {
                1nat
            } else {
                0nat
            }
        }
    }

    /// How many versions of crate `k` were created in the day before `now`.
    pub open spec fn published_today(&self, k: int, now: i64) -> nat {
        self.count_recent(k, now - DAILY_WINDOW_SECONDS, self.versions@.len() as int)
    }

    /// Whether crate `k` has a version whose number equals `num` once build
    /// metadata is stripped from both.
    pub open spec fn has_version(&self, k: int, num: Seq<char>) -> bool {
        exists|j: int|
            0 <= j < self.versions@.len() && (#[trigger] self.versions@[j]).crate_id == k
                && strip_build(self.versions@[j].num@) == strip_build(num)
    }

    /// Whether a crate is named exactly `name`.
    pub open spec fn has_exact(&self, name: Seq<char>) -> bool {
        exists|i: int| 0 <= i < self.crates@.len() && (#[trigger] self.crates@[i]).name@ == name
    }

    /// An empty catalog with the given category slugs and reserved names.
    pub fn new(categories: Vec<String>, reserved_names: Vec<String>) -> (r: Catalog)
        ensures
            r.wf(),
            r.crates@.len() == 0,
            r.owners@.len() == 0,
            r.versions@.len() == 0,
            r.dependencies@.len() == 0,
            r.jobs@.len() == 0,
            r.categories@ == categories@,
            r.reserved_names@ == reserved_names@,
    {
        Catalog {
            crates: Vec::new(),
            owners: Vec::new(),
            versions: Vec::new(),
            dependencies: Vec::new(),
            categories,
            reserved_names,
            jobs: Vec::new(),
        }
    }

    /// The crate that holds `name` in canonical form, if any.
    pub fn find_by_name(&self, name: &str) -> (r: Option<usize>)
        requires
            self.wf(),
        ensures
            match r {
                Some(k) => self.crate_index(name@) == Some(k as int),
                None => self.crate_index(name@) is None,
            },
    {
        let mut i: usize = 0;
        while i < self.crates.len()
            invariant
                self.wf(),
                i <= self.crates@.len(),
                forall|j: int| 0 <= j < i ==> canon(#[trigger] self.crates@[j].name@) != canon(name@),
            decreases self.crates@.len() - i,
        {
            if same_canonical_name(self.crates[i].name.as_str(), name) {
                assert(self.has_crate(name@));
                let ghost k = self.crate_index(name@)->0;
                assert(k == i) by {
                    if k != i {
                        assert(canon(self.crates@[k].name@) != canon(self.crates@[i as int].name@));
                    }
                }
                return Some(i);
            }
            i += 1;
        }
        None
    }

    /// The scope a publish of `name` asks authorization for: an update where
    /// the crate exists, else a new crate. Only the authorization uses it.
    pub fn endpoint_scope(&self, name: &str) -> (r: EndpointScope)
        requires
            self.wf(),
        ensures
            r == (if self.has_crate(name@) {
                EndpointScope::PublishUpdate
            } else {
                EndpointScope::PublishNew
            }),
    {
        match self.find_by_name(name) {
            Some(_) => EndpointScope::PublishUpdate,
            None => EndpointScope::PublishNew,
        }
    }

    /// Whether `name` is reserved.
    pub fn is_reserved_name(&self, name: &str) -> (r: bool)
        ensures
            r == self.is_reserved(name@),
    {
        let mut i: usize = 0;
        while i < self.reserved_names.len()
            invariant
                i <= self.reserved_names@.len(),
                forall|j: int| 0 <= j < i ==> canon(#[trigger] self.reserved_names@[j]@) != canon(name@),
            decreases self.reserved_names@.len() - i,
        {
            if same_canonical_name(self.reserved_names[i].as_str(), name) {
                return true;
            }
            i += 1;
        }
        false
    }

    /// The rights of `user`, a member of `teams`, on crate `k`.
    pub fn rights(&self, k: usize, user: u64, teams: &Vec<u64>) -> (r: Rights)
        ensures
            r == self.rights_spec(k as int, user, teams@),
    {
        let mut i: usize = 0;
        while i < self.owners.len()
            invariant
                i <= self.owners@.len(),
                forall|j: int|
                    0 <= j < i ==> !((#[trigger] self.owners@[j]).crate_id == k
                        && self.owners@[j].owner == Owner::User(user)),
            decreases self.owners@.len() - i,
        {
            if self.owners[i].crate_id == k && self.owners[i].owner == Owner::User(user) {
                return Rights::Full;
            }
            i += 1;
        }
        let mut i: usize = 0;
        while i < self.owners.len()
            invariant
                !self.owned_by_user(k as int, user),
                i <= self.owners@.len(),
                forall|j: int, t: int|
                    0 <= j < i && 0 <= t < teams@.len() ==> !((#[trigger] self.owners@[j]).crate_id
                        == k && self.owners@[j].owner == Owner::Team(#[trigger] teams@[t])),
            decreases self.owners@.len() - i,
        {
            if self.owners[i].crate_id == k {
                match self.owners[i].owner {
                    Owner::Team(team) => {
                        let mut t: usize = 0;
                        while t < teams.len()
                            invariant
                                !self.owned_by_user(k as int, user),
                                i < self.owners@.len(),
                                self.owners@[i as int].crate_id == k,
                                self.owners@[i as int].owner == Owner::Team(team),
                                t <= teams@.len(),
                                forall|u: int| 0 <= u < t ==> teams@[u] != team,
                            decreases teams@.len() - t,
                        {
                            if teams[t] == team {
                                assert(self.owned_by_team_of(k as int, teams@));
                                return Rights::Publish;
                            }
                            t += 1;
                        }
                    },
                    Owner::User(_) => {},
                }
            }
            i += 1;
        }
        Rights::NoAccess
    }

    /// How many versions of crate `k` were created in the day before `now`.
    pub fn count_versions_published_today(&self, k: usize, now: i64) -> (r: usize)
        ensures
            r == self.published_today(k as int, now),
    {
        let since: i128 = now as i128 - DAILY_WINDOW_SECONDS as i128;
        let mut count: usize = 0;
        let mut i: usize = 0;
        while i < self.versions.len()
            invariant
                since == now - DAILY_WINDOW_SECONDS,
                i <= self.versions@.len(),
                count == self.count_recent(k as int, since as int, i as int),
                count <= i,
            decreases self.versions@.len() - i,
        {
            if self.versions[i].crate_id == k && self.versions[i].created_at as i128 > since {
                count += 1;
            }
            i += 1;
        }
        count
    }
}

/// The tables other than the versions are the same in `a` and `b`.
pub open spec fn only_versions_changed(a: Catalog, b: Catalog) -> bool {
    &&& a.crates == b.crates
    &&& a.owners == b.owners
    &&& a.dependencies == b.dependencies
    &&& a.categories == b.categories
    &&& a.reserved_names == b.reserved_names
    &&& a.jobs == b.jobs
}

/// A version about to be saved.
#[derive(Debug)]
pub struct NewVersion {
    pub crate_id: usize,
    pub num: String,
    pub features: Vec<(String, Vec<String>)>,
    pub license: Option<String>,
    pub crate_size: u64,
    pub published_by: u64,
    pub checksum: String,
    pub links: Option<String>,
    pub rust_version: Option<String>,
}

impl NewVersion {
    pub fn new(
        crate_id: usize,
        num: String,
        features: Vec<(String, Vec<String>)>,
        license: Option<String>,
        crate_size: u64,
        published_by: u64,
        checksum: String,
        links: Option<String>,
        rust_version: Option<String>,
    ) -> (r: NewVersion)
        ensures
            r == (NewVersion {
                crate_id,
                num,
                features,
                license,
                crate_size,
                published_by,
                checksum,
                links,
                rust_version,
            }),
    {
        NewVersion {
            crate_id,
            num,
            features,
            license,
            crate_size,
            published_by,
            checksum,
            links,
            rust_version,
        }
    }

    /// The row this version becomes, with its id and what the save adds.
    pub open spec fn record(
        self,
        id: usize,
        email: String,
        api_token_id: Option<u64>,
        now: i64,
    ) -> VersionRecord {
        VersionRecord {
            id,
            crate_id: self.crate_id,
            num: self.num,
            features: self.features,
            license: self.license,
            crate_size: self.crate_size,
            published_by: self.published_by,
            checksum: self.checksum,
            links: self.links,
            rust_version: self.rust_version,
            created_at: now,
            publisher_email: email,
            api_token_id,
        }
    }

    /// Saves the version, with the publisher's email and API token, unless
    /// the crate already has its number once build metadata is stripped.
    pub fn save(self, catalog: &mut Catalog, email: String, api_token_id: Option<u64>, now: i64) -> (r: Result<usize, TransactionError>)
        requires
            old(catalog).wf(),
            self.crate_id < old(catalog).crates@.len(),
        ensures
            final(catalog).wf(),
            old(catalog).has_version(self.crate_id as int, self.num@) ==> r == Err::<usize, TransactionError>(TransactionError::VersionExists) && *final(catalog) == *old(catalog),
            !old(catalog).has_version(self.crate_id as int, self.num@) ==> r is Ok && r->Ok_0 == old(catalog).versions@.len()
                && final(catalog).versions@ == old(catalog).versions@.push(self.record(old(catalog).versions@.len() as usize, email, api_token_id, now))
                && only_versions_changed(*old(catalog), *final(catalog)),
    {
        if catalog.version_exists(self.crate_id, self.num.as_str()) {
            return Err(TransactionError::VersionExists);
        }
        let id = catalog.versions.len();
        let ghost old_c = *catalog;
        catalog.versions.push(VersionRecord {
            id,
            crate_id: self.crate_id,
            num: self.num,
            features: self.features,
            license: self.license,
            crate_size: self.crate_size,
            published_by: self.published_by,
            checksum: self.checksum,
            links: self.links,
            rust_version: self.rust_version,
            created_at: now,
            publisher_email: email,
            api_token_id,
        });
        proof {
            assert(catalog.versions@ == old_c.versions@.push(self.record(id, email, api_token_id, now)));
            assert forall|i: int, j: int|
                0 <= i < catalog.versions@.len() && 0 <= j < catalog.versions@.len() && i != j
                    && catalog.versions@[i].crate_id == catalog.versions@[j].crate_id implies strip_build(
                    #[trigger] catalog.versions@[i].num@,
                ) != strip_build(#[trigger] catalog.versions@[j].num@) by {
                if i == id as int {
                    assert(!(catalog.versions@[j].crate_id == self.crate_id && strip_build(catalog.versions@[j].num@) == strip_build(self.num@)));
                } else if j == id as int {
                    assert(!(catalog.versions@[i].crate_id == self.crate_id && strip_build(catalog.versions@[i].num@) == strip_build(self.num@)));
                }
            }
        }
        Ok(id)
    }
}

/// The tables other than the dependencies are the same in `a` and `b`.
pub open spec fn only_dependencies_changed(a: Catalog, b: Catalog) -> bool {
    &&& a.crates == b.crates
    &&& a.owners == b.owners
    &&& a.versions == b.versions
    &&& a.categories == b.categories
    &&& a.reserved_names == b.reserved_names
    &&& a.jobs == b.jobs
}

/// `r` is the row that dependency `d` of version `vid` becomes, resolved to crate `cid`.
pub open spec fn dependency_row(r: DependencyRecord, d: CrateDependency, vid: usize, cid: usize) -> bool {
    &&& r.version_id == vid
    &&& r.crate_id == cid
    &&& r.req@ == d.version_req@
    &&& r.kind == match d.kind {
        Some(k) => k,
        None => DependencyKind::Normal,
    }
    &&& r.optional == d.optional
    &&& r.default_features == d.default_features
    &&& strings_view(r.features@) == strings_view(d.features@)
    &&& opt_view(r.target) == opt_view(d.target)
    &&& opt_view(r.explicit_name) == opt_view(d.explicit_name_in_toml)
}

impl Catalog {
    /// Whether every dependency in `deps` names an existing crate exactly.
    pub open spec fn all_known(&self, deps: Seq<CrateDependency>) -> bool {
        forall|i: int| 0 <= i < deps.len() ==> self.has_exact(#[trigger] deps[i].name@)
    }

    /// Links version `version_id` to its dependencies, each resolved to the
    /// crate named exactly as it says. Where one names no crate, nothing is
    /// written and its position is reported.
    pub fn add_dependencies(&mut self, deps: &Vec<CrateDependency>, version_id: usize) -> (r: Result<(), TransactionError>)
        requires
            old(self).wf(),
            version_id < old(self).versions@.len(),
        ensures
            final(self).wf(),
            match r {
                Err(e) => *final(self) == *old(self) && exists|i: int|
                    0 <= i < deps@.len() && e == TransactionError::UnknownDependency(i as usize)
                        && !old(self).has_exact(deps@[i].name@)
                        && forall|j: int| 0 <= j < i ==> old(self).has_exact(#[trigger] deps@[j].name@),
                Ok(_) => old(self).all_known(deps@) && only_dependencies_changed(*old(self), *final(self))
                    && final(self).dependencies@.len() == old(self).dependencies@.len() + deps@.len()
                    && final(self).dependencies@.subrange(0, old(self).dependencies@.len() as int) == old(self).dependencies@
                    && forall|i: int| 0 <= i < deps@.len() ==> {
                        let row = #[trigger] final(self).dependencies@[old(self).dependencies@.len() + i];
                        row.crate_id < final(self).crates@.len() && final(self).crates@[row.crate_id as int].name@ == deps@[i].name@
                            && dependency_row(row, deps@[i], version_id, row.crate_id)
                    },
            },
    {
        let mut ids: Vec<usize> = Vec::new();
        let mut i: usize = 0;
        while i < deps.len()
            invariant
                self.wf(),
                *self == *old(self),
                i <= deps@.len(),
                ids@.len() == i,
                forall|j: int| 0 <= j < i ==> #[trigger] ids@[j] < self.crates@.len() && self.crates@[ids@[j] as int].name@ == deps@[j].name@,
                forall|j: int| 0 <= j < i ==> self.has_exact(#[trigger] deps@[j].name@),
            decreases deps@.len() - i,
        {
            match self.find_exact_name(deps[i].name.as_str()) {
                Some(id) => {
                    ids.push(id);
                    assert(self.crates@[ids@[i as int] as int].name@ == deps@[i as int].name@);
                },
                None => {
                    return Err(TransactionError::UnknownDependency(i));
                },
            }
            i += 1;
        }
        let ghost old_c = *self;
        let mut i: usize = 0;
        while i < deps.len()
            invariant
                old_c.wf(),
                version_id < old_c.versions@.len(),
                i <= deps@.len(),
                ids@.len() == deps@.len(),
                forall|j: int| 0 <= j < deps@.len() ==> #[trigger] ids@[j] < old_c.crates@.len() && old_c.crates@[ids@[j] as int].name@ == deps@[j].name@,
                only_dependencies_changed(old_c, *self),
                self.dependencies@.len() == old_c.dependencies@.len() + i,
                self.dependencies@.subrange(0, old_c.dependencies@.len() as int) == old_c.dependencies@,
                forall|j: int| 0 <= j < i ==> dependency_row(#[trigger] self.dependencies@[old_c.dependencies@.len() + j], deps@[j], version_id, ids@[j]),
            decreases deps@.len() - i,
        {
            let d = &deps[i];
            let kind = match d.kind {
                Some(k) => k,
                None => DependencyKind::Normal,
            };
            let row = DependencyRecord {
                version_id,
                crate_id: ids[i],
                req: d.version_req.clone(),
                kind,
                optional: d.optional,
                default_features: d.default_features,
                features: clone_strings(&d.features),
                target: clone_opt(&d.target),
                explicit_name: clone_opt(&d.explicit_name_in_toml),
            };
            let ghost before = self.dependencies@;
            self.dependencies.push(row);
            assert(self.dependencies@.subrange(0, old_c.dependencies@.len() as int) =~= old_c.dependencies@);
            assert forall|j: int| 0 <= j < i + 1 implies dependency_row(#[trigger] self.dependencies@[old_c.dependencies@.len() + j], deps@[j], version_id, ids@[j]) by {
                if j < i {
                    assert(self.dependencies@[old_c.dependencies@.len() + j] == before[old_c.dependencies@.len() + j]);
                }
            }
            i += 1;
        }
        proof {
            assert forall|k: int| 0 <= k < self.dependencies@.len() implies (#[trigger] self.dependencies@[k]).version_id
                < self.versions@.len() && self.dependencies@[k].crate_id < self.crates@.len() by {
                if k < old_c.dependencies@.len() {
                    assert(self.dependencies@[k] == self.dependencies@.subrange(0, old_c.dependencies@.len() as int)[k]);
                    assert(old_c.dependencies@[k].version_id < old_c.versions@.len());
                } else {
                    let j = k - old_c.dependencies@.len();
                    assert(old_c.dependencies@.len() + j == k);
                    assert(dependency_row(self.dependencies@[old_c.dependencies@.len() + j], deps@[j], version_id, ids@[j]));
                    assert(ids@[j] < old_c.crates@.len());
                }
            }
            assert forall|j: int| 0 <= j < deps@.len() implies {
                let row = #[trigger] self.dependencies@[old_c.dependencies@.len() + j];
                row.crate_id < self.crates@.len() && self.crates@[row.crate_id as int].name@ == deps@[j].name@
                    && dependency_row(row, deps@[j], version_id, row.crate_id)
            } by {
                assert(dependency_row(self.dependencies@[old_c.dependencies@.len() + j], deps@[j], version_id, ids@[j]));
                assert(old_c.crates@[ids@[j] as int].name@ == deps@[j].name@);
            }
        }
        Ok(())
    }
}

/// Why the atomic step refuses a publish; the catalog is then unchanged.
#[derive(PartialEq, Eq, Structural, Clone, Copy, Debug)]
pub enum TransactionError {
    /// The name is reserved.
    ReservedName,
    /// The crate exists and the publisher may not publish it.
    NotOwner,
    /// The crate exists under a name that differs in case or separators.
    PreviouslyNamed,
    /// The daily cap on new versions of the crate is reached.
    TooManyVersionsToday,
    /// The version number is taken, build metadata aside.
    VersionExists,
    /// The dependency at this position breaks a rule.
    InvalidDependency(usize, DependencyProblem),
    /// No crate has the name of the dependency at this position.
    UnknownDependency(usize),
}

/// The part of a version number before the first `+`.
pub fn strip_build_metadata(version: &str) -> (r: &str)
    ensures
        r@ == strip_build(version@),
{
    let n = version.unicode_len();
    let mut i: usize = 0;
    while i < n
        invariant
            n == version@.len(),
            i <= n,
            forall|j: int| 0 <= j < i ==> version@[j] != '+',
        decreases n - i,
    {
        if version.get_char(i) == '+' {
            assert(contains_char(version@, '+'));
            let ghost k = first_index(version@, '+');
            assert(0 <= i < version@.len() && version@[i as int] == '+' && forall|j: int|
                0 <= j < i ==> version@[j] != '+');
            assert(k == i) by {
                if k < i {
                    assert(version@[k] != '+');
                } else if k > i {
                    assert(version@[i as int] != '+');
                }
            }
            return version.substring_char(0, i);
        }
        i += 1;
    }
    version
}

impl Catalog {
    /// Whether crate `k` already has `num`, build metadata aside.
    pub fn version_exists(&self, k: usize, num: &str) -> (r: bool)
        ensures
            r == self.has_version(k as int, num@),
    {
        let stripped = strip_build_metadata(num);
        let mut i: usize = 0;
        while i < self.versions.len()
            invariant
                stripped@ == strip_build(num@),
                i <= self.versions@.len(),
                forall|j: int|
                    0 <= j < i ==> !((#[trigger] self.versions@[j]).crate_id == k && strip_build(
                        self.versions@[j].num@,
                    ) == strip_build(num@)),
            decreases self.versions@.len() - i,
        {
            if self.versions[i].crate_id == k {
                let s = strip_build_metadata(self.versions[i].num.as_str());
                if s.unicode_len() == stripped.unicode_len() && eq_str(s, stripped) {
                    return true;
                }
            }
            i += 1;
        }
        false
    }

    /// The crate named exactly `name`, if any.
    pub fn find_exact_name(&self, name: &str) -> (r: Option<usize>)
        ensures
            match r {
                Some(k) => k < self.crates@.len() && self.crates@[k as int].name@ == name@,
                None => !self.has_exact(name@),
            },
    {
        let mut i: usize = 0;
        while i < self.crates.len()
            invariant
                i <= self.crates@.len(),
                forall|j: int| 0 <= j < i ==> (#[trigger] self.crates@[j]).name@ != name@,
            decreases self.crates@.len() - i,
        {
            if eq_str(self.crates[i].name.as_str(), name) {
                return Some(i);
            }
            i += 1;
        }
        None
    }
}

/// Whether two strings hold the same characters.
pub fn eq_str(a: &str, b: &str) -> (r: bool)
    ensures
        r == (a@ == b@),
{
    let n = a.unicode_len();
    if n != b.unicode_len() {
        return false;
    }
    let mut i: usize = 0;
    while i < n
        invariant
            n == a@.len() == b@.len(),
            i <= n,
            forall|j: int| 0 <= j < i ==> a@[j] == b@[j],
        decreases n - i,
    {
        if a.get_char(i) != b.get_char(i) {
            return false;
        }
        i += 1;
    }
    assert(a@ =~= b@);
    true
}

} // verus!

verus! {

/// All that the atomic step of a publish needs, gathered and checked
/// beforehand.
#[derive(Debug)]
pub struct PublishRequest {
    pub name: String,
    /// The version number in canonical form.
    pub version: String,
    pub user_id: u64,
    /// The teams the publisher belongs to.
    pub user_teams: Vec<u64>,
    pub api_token_id: Option<u64>,
    /// The publisher's verified email address.
    pub email: String,
    pub description: Option<String>,
    pub homepage: Option<String>,
    pub documentation: Option<String>,
    pub readme: Option<String>,
    pub repository: Option<String>,
    pub readme_file: Option<String>,
    /// Where the package lies in its repository, if the artifact says.
    pub path_in_vcs: Option<String>,
    pub features: Vec<(String, Vec<String>)>,
    /// The license to record.
    pub license: Option<String>,
    pub crate_size: u64,
    pub checksum: String,
    pub links: Option<String>,
    pub rust_version: Option<String>,
    pub dependencies: Vec<CrateDependency>,
    pub keywords: Vec<String>,
    pub categories: Vec<String>,
    /// The time of the publish, in seconds.
    pub now: i64,
    /// The most new versions of one crate allowed in a day, if capped.
    pub daily_version_limit: Option<u32>,
}

/// What a publish that went through reports.
#[derive(Debug)]
pub struct PublishOutcome {
    pub crate_id: usize,
    pub version_id: usize,
    /// The requested categories that do not exist, which were left out.
    pub invalid_categories: Vec<String>,
}

/// Whether some dependency breaks a rule.
pub open spec fn has_bad_dependency(deps: Seq<CrateDependency>) -> bool {
    exists|i: int| 0 <= i < deps.len() && (#[trigger] dependency_check(deps[i])) is Err
}

/// The position of the first dependency that breaks a rule.
pub open spec fn first_bad_dependency(deps: Seq<CrateDependency>) -> int {
    choose|i: int|
        0 <= i < deps.len() && (#[trigger] dependency_check(deps[i])) is Err && forall|j: int|
            0 <= j < i ==> (#[trigger] dependency_check(deps[j])) is Ok
}

impl Catalog {
    pub open spec fn has_category(&self, c: Seq<char>) -> bool {
        exists|i: int| 0 <= i < self.categories@.len() && (#[trigger] self.categories@[i])@ == c
    }

    /// The first `n` requested categories that exist.
    pub open spec fn valid_categories(&self, cats: Seq<String>, n: int) -> Seq<Seq<char>>
        decreases n,
    {
        if n <= 0 {
            seq![]
        } else {
            self.valid_categories(cats, n - 1) + if self.has_category(cats[n - 1]@) {
                seq![cats[n - 1]@]
            } else {
                seq![]
            }
        }
    }

    /// The first `n` requested categories that do not exist.
    pub open spec fn invalid_categories(&self, cats: Seq<String>, n: int) -> Seq<Seq<char>>
        decreases n,
    {
        if n <= 0 {
            seq![]
        } else {
            self.invalid_categories(cats, n - 1) + if self.has_category(cats[n - 1]@) {
                seq![]
            } else {
                seq![cats[n - 1]@]
            }
        }
    }

    /// A dependency resolves where a crate has its exact name, or where it
    /// names the crate being created.
    pub open spec fn resolves(&self, d: CrateDependency, name: Seq<char>, is_new: bool) -> bool {
        self.has_exact(d.name@) || (is_new && d.name@ == name)
    }

    pub open spec fn has_unresolved(&self, deps: Seq<CrateDependency>, name: Seq<char>, is_new: bool) -> bool {
        exists|i: int| 0 <= i < deps.len() && !self.resolves(#[trigger] deps[i], name, is_new)
    }

    pub open spec fn first_unresolved(&self, deps: Seq<CrateDependency>, name: Seq<char>, is_new: bool) -> int {
        choose|i: int|
            0 <= i < deps.len() && !self.resolves(#[trigger] deps[i], name, is_new) && forall|j: int|
                0 <= j < i ==> self.resolves(#[trigger] deps[j], name, is_new)
    }

    /// What the dependencies decide: the first that breaks a rule, else the
    /// first that names no crate, else none.
    pub open spec fn dependency_outcome(&self, deps: Seq<CrateDependency>, name: Seq<char>, is_new: bool) -> Result<(), TransactionError> {
        if has_bad_dependency(deps) {
            let i = first_bad_dependency(deps);
            Err(TransactionError::InvalidDependency(i as usize, dependency_check(deps[i])->Err_0))
        } else if self.has_unresolved(deps, name, is_new) {
            Err(TransactionError::UnknownDependency(self.first_unresolved(deps, name, is_new) as usize))
        } else {
            Ok(())
        }
    }

    /// The checks that come before the dependencies, in order: reserved
    /// name, ownership, name stability, daily cap, version uniqueness.
    pub open spec fn preliminary_check(&self, req: PublishRequest) -> Result<(), TransactionError> {
        if self.is_reserved(req.name@) {
            Err(TransactionError::ReservedName)
        } else {
            match self.crate_index(req.name@) {
                Some(k) => if self.rights_spec(k, req.user_id, req.user_teams@).level()
                    < Rights::Publish.level() {
                    Err(TransactionError::NotOwner)
                } else if self.crates@[k].name@ != req.name@ {
                    Err(TransactionError::PreviouslyNamed)
                } else if (req.daily_version_limit matches Some(l) && self.published_today(k, req.now) >= l) {
                    Err(TransactionError::TooManyVersionsToday)
                } else if self.has_version(k, req.version@) {
                    Err(TransactionError::VersionExists)
                } else {
                    Ok(())
                },
                None => if (req.daily_version_limit matches Some(l) && l == 0) {
                    Err(TransactionError::TooManyVersionsToday)
                } else {
                    Ok(())
                },
            }
        }
    }

    /// What the atomic step decides on `req`: the preliminary checks, then
    /// the dependencies.
    pub open spec fn publish_check(&self, req: PublishRequest) -> Result<(), TransactionError> {
        match self.preliminary_check(req) {
            Err(e) => Err(e),
            Ok(_) => self.dependency_outcome(req.dependencies@, req.name@, self.crate_index(req.name@) is None),
        }
    }

    /// Splits the requested categories into those that exist and those that
    /// do not, each in request order.
    pub fn split_categories(&self, cats: &Vec<String>) -> (r: (Vec<String>, Vec<String>))
        ensures
            strings_view(r.0@) == self.valid_categories(cats@, cats@.len() as int),
            strings_view(r.1@) == self.invalid_categories(cats@, cats@.len() as int),
    {
        let mut valid: Vec<String> = Vec::new();
        let mut invalid: Vec<String> = Vec::new();
        let mut i: usize = 0;
        while i < cats.len()
            invariant
                i <= cats@.len(),
                strings_view(valid@) == self.valid_categories(cats@, i as int),
                strings_view(invalid@) == self.invalid_categories(cats@, i as int),
            decreases cats@.len() - i,
        {
            let mut found = false;
            let mut j: usize = 0;
            while j < self.categories.len()
                invariant
                    i < cats@.len(),
                    j <= self.categories@.len(),
                    found == exists|m: int| 0 <= m < j && (#[trigger] self.categories@[m])@ == cats@[i as int]@,
                decreases self.categories@.len() - j,
            {
                if !found && eq_str(self.categories[j].as_str(), cats[i].as_str()) {
                    found = true;
                }
                j += 1;
            }
            let c = cats[i].clone();
            if found {
                valid.push(c);
            } else {
                invalid.push(c);
            }
            i += 1;
            assert(strings_view(valid@) =~= self.valid_categories(cats@, i as int));
            assert(strings_view(invalid@) =~= self.invalid_categories(cats@, i as int));
        }
        (valid, invalid)
    }

    /// Checks the dependencies of a publish of crate `name`.
    pub fn check_dependencies(&self, deps: &Vec<CrateDependency>, name: &str, is_new: bool) -> (r: Result<(), TransactionError>)
        ensures
            r == self.dependency_outcome(deps@, name@, is_new),
    {
        let mut i: usize = 0;
        while i < deps.len()
            invariant
                i <= deps@.len(),
                forall|j: int| 0 <= j < i ==> (#[trigger] dependency_check(deps@[j])) is Ok,
            decreases deps@.len() - i,
        {
            match validate_dependency(&deps[i]) {
                Err(p) => {
                    let ghost k = first_bad_dependency(deps@);
                    assert(0 <= i < deps@.len() && dependency_check(deps@[i as int]) is Err && forall|j: int|
                        0 <= j < i ==> (#[trigger] dependency_check(deps@[j])) is Ok);
                    assert(has_bad_dependency(deps@));
                    assert(k == i) by {
                        if k < i {
                            assert(dependency_check(deps@[k]) is Ok);
                        } else if k > i {
                            assert(dependency_check(deps@[i as int]) is Ok);
                        }
                    }
                    return Err(TransactionError::InvalidDependency(i, p));
                },
                Ok(_) => {},
            }
            i += 1;
        }
        let mut i: usize = 0;
        while i < deps.len()
            invariant
                !has_bad_dependency(deps@),
                i <= deps@.len(),
                forall|j: int| 0 <= j < i ==> self.resolves(#[trigger] deps@[j], name@, is_new),
            decreases deps@.len() - i,
        {
            let d = deps[i].name.as_str();
            let known = match self.find_exact_name(d) {
                Some(_) => true,
                None => false,
            };
            if !known && !(is_new && eq_str(d, name)) {
                let ghost k = self.first_unresolved(deps@, name@, is_new);
                assert(0 <= i < deps@.len() && !self.resolves(deps@[i as int], name@, is_new) && forall|j: int|
                    0 <= j < i ==> self.resolves(#[trigger] deps@[j], name@, is_new));
                assert(self.has_unresolved(deps@, name@, is_new));
                assert(k == i) by {
                    if k < i {
                        assert(self.resolves(deps@[k], name@, is_new));
                    } else if k > i {
                        assert(self.resolves(deps@[i as int], name@, is_new));
                    }
                }
                return Err(TransactionError::UnknownDependency(i));
            }
            i += 1;
        }
        Ok(())
    }
}

} // verus!

verus! {

/// The crate row after a publish of `req`: at position `k`, new where
/// `is_new`, otherwise the row that was there with its descriptive fields,
/// keywords and categories refreshed. Other rows are kept; a new crate gets
/// its publisher as owner.
pub open spec fn crate_upserted(
    old: Catalog,
    new: Catalog,
    k: int,
    is_new: bool,
    req: PublishRequest,
    cats: Seq<Seq<char>>,
) -> bool {
    &&& new.crates@.len() == old.crates@.len() + if is_new {
        1int
    } else {
        0int
    }
    &&& 0 <= k < new.crates@.len()
    &&& is_new ==> k == old.crates@.len()
    &&& forall|i: int| 0 <= i < old.crates@.len() && i != k ==> new.crates@[i] == old.crates@[i]
    &&& new.crates@[k].id == k
    &&& new.crates@[k].name@ == req.name@
    &&& opt_view(new.crates@[k].description) == opt_view(req.description)
    &&& opt_view(new.crates@[k].homepage) == opt_view(req.homepage)
    &&& opt_view(new.crates@[k].documentation) == opt_view(req.documentation)
    &&& opt_view(new.crates@[k].readme) == opt_view(req.readme)
    &&& opt_view(new.crates@[k].repository) == opt_view(req.repository)
    &&& strings_view(new.crates@[k].keywords@) == strings_view(req.keywords@)
    &&& strings_view(new.crates@[k].categories@) == cats
    &&& new.crates@[k].max_upload_size == if is_new {
        None
    } else {
        old.crates@[k].max_upload_size
    }
    &&& new.crates@[k].max_features == if is_new {
        None
    } else {
        old.crates@[k].max_features
    }
    &&& new.owners@ == if is_new {
        old.owners@.push(OwnerRecord { crate_id: k as usize, owner: Owner::User(req.user_id) })
    } else {
        old.owners@
    }
}

impl Catalog {
    /// Inserts the crate where no crate holds its name, else refreshes the
    /// row that does.
    fn upsert_crate(
        &mut self,
        existing: Option<usize>,
        name: String,
        user_id: u64,
        description: Option<String>,
        homepage: Option<String>,
        documentation: Option<String>,
        readme: Option<String>,
        repository: Option<String>,
        keywords: Vec<String>,
        categories: Vec<String>,
        Ghost(req): Ghost<PublishRequest>,
        Ghost(cats): Ghost<Seq<Seq<char>>>,
    ) -> (k: usize)
        requires
            old(self).wf(),
            name@ == req.name@,
            user_id == req.user_id,
            opt_view(description) == opt_view(req.description),
            opt_view(homepage) == opt_view(req.homepage),
            opt_view(documentation) == opt_view(req.documentation),
            opt_view(readme) == opt_view(req.readme),
            opt_view(repository) == opt_view(req.repository),
            strings_view(keywords@) == strings_view(req.keywords@),
            strings_view(categories@) == cats,
            match existing {
                Some(k) => old(self).crate_index(req.name@) == Some(k as int) && old(self).crates@[k as int].name@ == req.name@,
                None => old(self).crate_index(req.name@) is None,
            },
        ensures
            final(self).wf(),
            crate_upserted(*old(self), *final(self), k as int, existing is None, req, cats),
            final(self).versions == old(self).versions,
            final(self).dependencies == old(self).dependencies,
            final(self).categories == old(self).categories,
            final(self).reserved_names == old(self).reserved_names,
            final(self).jobs == old(self).jobs,
            existing matches Some(e) ==> k == e,
    {
        let ghost old_c = *self;
        match existing {
            Some(k) => {
                let old_rec = self.crates.remove(k);
                let rec = CrateRecord {
                    id: old_rec.id,
                    name: old_rec.name,
                    description,
                    homepage,
                    documentation,
                    readme,
                    repository,
                    max_upload_size: old_rec.max_upload_size,
                    max_features: old_rec.max_features,
                    keywords,
                    categories,
                };
                self.crates.insert(k, rec);
                proof {
                    assert(self.crates@ =~= old_c.crates@.update(k as int, rec));
                    assert forall|i: int, j: int|
                        0 <= i < self.crates@.len() && 0 <= j < self.crates@.len() && i != j implies canon(
                            #[trigger] self.crates@[i].name@,
                        ) != canon(#[trigger] self.crates@[j].name@) by {
                        assert(self.crates@[i].name == old_c.crates@[i].name);
                        assert(self.crates@[j].name == old_c.crates@[j].name);
                    }
                }
                k
            },
            None => {
                let k = self.crates.len();
                self.crates.push(
                    CrateRecord {
                        id: k,
                        name,
                        description,
                        homepage,
                        documentation,
                        readme,
                        repository,
                        max_upload_size: None,
                        max_features: None,
                        keywords,
                        categories,
                    },
                );
                self.owners.push(OwnerRecord { crate_id: k, owner: Owner::User(user_id) });
                proof {
                    assert(!old_c.has_crate(req.name@));
                    assert forall|i: int, j: int|
                        0 <= i < self.crates@.len() && 0 <= j < self.crates@.len() && i != j implies canon(
                            #[trigger] self.crates@[i].name@,
                        ) != canon(#[trigger] self.crates@[j].name@) by {
                        if i == k as int {
                            assert(canon(old_c.crates@[j].name@) != canon(req.name@));
                        } else if j == k as int {
                            assert(canon(old_c.crates@[i].name@) != canon(req.name@));
                        } else {
                            assert(self.crates@[i] == old_c.crates@[i]);
                            assert(self.crates@[j] == old_c.crates@[j]);
                        }
                    }
                    assert forall|i: int| 0 <= i < self.owners@.len() implies (#[trigger] self.owners@[i]).crate_id
                        < self.crates@.len() by {
                        if i < old_c.owners@.len() {
                            assert(self.owners@[i] == old_c.owners@[i]);
                        }
                    }
                    assert forall|i: int| 0 <= i < self.crates@.len() implies (#[trigger] self.crates@[i]).id == i by {
                        if i < old_c.crates@.len() {
                            assert(self.crates@[i] == old_c.crates@[i]);
                        }
                    }
                }
                k
            },
        }
    }
}

} // verus!

verus! {

/// The readme file name assumed where the upload names none.
pub const DEFAULT_README_FILE: &'static str = "README.md";

/// Whether the publish carries a non-empty readme to render.
pub open spec fn has_readme(req: PublishRequest) -> bool {
    req.readme matches Some(r) && r@.len() > 0
}

/// The jobs a publish of `req` adds after `old`: a readme rendering where
/// there is a readme, then always an index synchronization.
pub open spec fn jobs_enqueued(old: Seq<Job>, new: Seq<Job>, req: PublishRequest, vid: usize) -> bool {
    &&& new.len() == old.len() + if has_readme(req) {
        2int
    } else {
        1int
    }
    &&& new.subrange(0, old.len() as int) == old
    &&& has_readme(req) ==> match new[old.len() as int] {
        Job::RenderAndUploadReadme { version_id, readme, readme_file, repository, path_in_vcs } => {
            &&& version_id == vid
            &&& readme@ == req.readme->0@
            &&& readme_file@ == match req.readme_file {
                Some(f) => f@,
                None => DEFAULT_README_FILE@,
            }
            &&& opt_view(repository) == opt_view(req.repository)
            &&& opt_view(path_in_vcs) == opt_view(req.path_in_vcs)
        },
        _ => false,
    }
    &&& match new.last() {
        Job::SyncToIndex { crate_name } => crate_name@ == req.name@,
        _ => false,
    }
}

/// `v` is the version row that a publish of `req` into crate `k` saves as `vid`.
pub open spec fn version_saved(v: VersionRecord, req: PublishRequest, k: int, vid: int) -> bool {
    &&& v.id == vid
    &&& v.crate_id == k
    &&& v.num@ == req.version@
    &&& v.features == req.features
    &&& v.license == req.license
    &&& v.crate_size == req.crate_size
    &&& v.published_by == req.user_id
    &&& v.checksum == req.checksum
    &&& v.links == req.links
    &&& v.rust_version == req.rust_version
    &&& v.created_at == req.now
    &&& v.publisher_email == req.email
    &&& v.api_token_id == req.api_token_id
}

/// The catalog `new` and the report `out` are what a publish of `req` that
/// passed every check makes of `old`.
pub open spec fn publish_post(old: Catalog, req: PublishRequest, new: Catalog, out: PublishOutcome) -> bool {
    let is_new = old.crate_index(req.name@) is None;
    let k = if is_new {
        old.crates@.len() as int
    } else {
        old.crate_index(req.name@)->0
    };
    let vid = old.versions@.len() as int;
    let n = old.dependencies@.len() as int;
    &&& out.crate_id == k
    &&& out.version_id == vid
    &&& strings_view(out.invalid_categories@) == old.invalid_categories(
        req.categories@,
        req.categories@.len() as int,
    )
    &&& crate_upserted(
        old,
        new,
        k,
        is_new,
        req,
        old.valid_categories(req.categories@, req.categories@.len() as int),
    )
    &&& new.versions@.len() == vid + 1
    &&& new.versions@.subrange(0, vid) == old.versions@
    &&& version_saved(new.versions@[vid], req, k, vid)
    &&& new.dependencies@.len() == n + req.dependencies@.len()
    &&& new.dependencies@.subrange(0, n) == old.dependencies@
    &&& forall|i: int|
        0 <= i < req.dependencies@.len() ==> {
            let row = #[trigger] new.dependencies@[n + i];
            row.crate_id < new.crates@.len() && new.crates@[row.crate_id as int].name@
                == req.dependencies@[i].name@ && dependency_row(
                row,
                req.dependencies@[i],
                vid as usize,
                row.crate_id,
            )
        }
    &&& new.categories == old.categories
    &&& new.reserved_names == old.reserved_names
    &&& jobs_enqueued(old.jobs@, new.jobs@, req, vid as usize)
}

impl Catalog {
    /// Admits a new version in one atomic step: the crate is inserted, or
    /// refreshed where it exists; the version, its dependencies, the crate's
    /// keywords and categories and the follow-up jobs are recorded. Where
    /// any check fails, the catalog is left as it was.
    pub fn publish(&mut self, req: PublishRequest) -> (r: Result<PublishOutcome, TransactionError>)
        requires
            old(self).wf(),
        ensures
            final(self).wf(),
            match old(self).publish_check(req) {
                Err(e) => r == Err::<PublishOutcome, TransactionError>(e) && *final(self) == *old(self),
                Ok(_) => r matches Ok(out) && publish_post(*old(self), req, *final(self), out),
            },
    {
        if self.is_reserved_name(req.name.as_str()) {
            return Err(TransactionError::ReservedName);
        }
        let existing = self.find_by_name(req.name.as_str());
        match existing {
            Some(k) => {
                if !self.rights(k, req.user_id, &req.user_teams).can_publish() {
                    return Err(TransactionError::NotOwner);
                }
                if !eq_str(self.crates[k].name.as_str(), req.name.as_str()) {
                    return Err(TransactionError::PreviouslyNamed);
                }
                if let Some(limit) = req.daily_version_limit {
                    if self.count_versions_published_today(k, req.now) as u64 >= limit as u64 {
                        return Err(TransactionError::TooManyVersionsToday);
                    }
                }
                if self.version_exists(k, req.version.as_str()) {
                    return Err(TransactionError::VersionExists);
                }
            },
            None => {
                if let Some(limit) = req.daily_version_limit {
                    if limit == 0 {
                        return Err(TransactionError::TooManyVersionsToday);
                    }
                }
            },
        }
        let is_new = existing.is_none();
        match self.check_dependencies(&req.dependencies, req.name.as_str(), is_new) {
            Err(e) => {
                return Err(e);
            },
            Ok(_) => {},
        }
        let ghost old_c = *self;
        let ghost r0 = req;
        let ghost cats = self.valid_categories(req.categories@, req.categories@.len() as int);
        let (valid, invalid) = self.split_categories(&req.categories);
        let PublishRequest {
            name,
            version,
            user_id,
            user_teams: _,
            api_token_id,
            email,
            description,
            homepage,
            documentation,
            readme,
            repository,
            readme_file,
            path_in_vcs,
            features,
            license,
            crate_size,
            checksum,
            links,
            rust_version,
            dependencies,
            keywords,
            categories: _,
            now,
            daily_version_limit: _,
        } = req;
        let job_name = name.clone();
        let k = self.upsert_crate(
            existing,
            name,
            user_id,
            description,
            homepage,
            documentation,
            clone_opt(&readme),
            clone_opt(&repository),
            keywords,
            valid,
            Ghost(r0),
            Ghost(cats),
        );
        proof {
            if is_new {
                assert forall|j: int| 0 <= j < self.versions@.len() implies !((#[trigger] self.versions@[j]).crate_id == k
                    && strip_build(self.versions@[j].num@) == strip_build(version@)) by {
                    assert(old_c.versions@[j].crate_id < old_c.crates@.len());
                }
            } else {
                assert(!old_c.has_version(k as int, version@));
            }
        }
        let nv = NewVersion::new(k, version, features, license, crate_size, user_id, checksum, links, rust_version);
        let ghost before_save = *self;
        let vid = match nv.save(self, email, api_token_id, now) {
            Ok(v) => v,
            Err(e) => {
                return Err(e);
            },
        };
        proof {
            assert forall|i: int| 0 <= i < dependencies@.len() implies self.has_exact(#[trigger] dependencies@[i].name@) by {
                assert(old_c.resolves(dependencies@[i], r0.name@, is_new));
                if old_c.has_exact(dependencies@[i].name@) {
                    let j = choose|j: int| 0 <= j < old_c.crates@.len() && (#[trigger] old_c.crates@[j]).name@ == dependencies@[i].name@;
                    if j == k as int {
                        assert(self.crates@[k as int].name@ == r0.name@);
                        assert(old_c.crates@[k as int].name@ == r0.name@);
                    } else {
                        assert(self.crates@[j] == old_c.crates@[j]);
                    }
                } else {
                    assert(self.crates@[k as int].name@ == dependencies@[i].name@);
                }
            }
        }
        let ghost before_deps = *self;
        match self.add_dependencies(&dependencies, vid) {
            Ok(_) => {},
            Err(e) => {
                return Err(e);
            },
        }
        let ghost before_jobs = *self;
        match readme {
            Some(text) => {
                if text.as_str().unicode_len() > 0 {
                    let file = match readme_file {
                        Some(f) => f,
                        None => String::from_str(DEFAULT_README_FILE),
                    };
                    self.jobs.push(
                        Job::RenderAndUploadReadme {
                            version_id: vid,
                            readme: text,
                            readme_file: file,
                            repository,
                            path_in_vcs,
                        },
                    );
                }
            },
            None => {},
        }
        self.jobs.push(Job::SyncToIndex { crate_name: job_name });
        proof {
            assert(self.jobs@.subrange(0, old_c.jobs@.len() as int) =~= old_c.jobs@);
            assert(self.versions@.subrange(0, old_c.versions@.len() as int) =~= old_c.versions@);
        }
        Ok(PublishOutcome { crate_id: k, version_id: vid, invalid_categories: invalid })
    }
}

} // verus!
