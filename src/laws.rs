//! Properties of the publish step that hold across several publishes.
use vstd::prelude::*;
use crate::catalog::{Catalog, Owner, PublishOutcome, PublishRequest, TransactionError, has_bad_dependency, publish_post, strip_build};
use crate::deps::dependency_check;
use crate::external::req_is_wildcard;
use crate::names::canon;

verus! {

/// Two different users publish the same new crate: whichever commits first
/// creates it and becomes its owner, and the other is refused as not an
/// owner. Exactly one row then holds the name.
pub proof fn lemma_first_publish_race(
    c: Catalog,
    c1: Catalog,
    r1: PublishRequest,
    out: PublishOutcome,
    r2: PublishRequest,
)
    requires
        c.wf(),
        c1.wf(),
        !c.has_crate(r1.name@),
        c.publish_check(r1) is Ok,
        publish_post(c, r1, c1, out),
        canon(r2.name@) == canon(r1.name@),
        r2.user_id != r1.user_id,
    ensures
        c1.publish_check(r2) == Err::<(), TransactionError>(TransactionError::NotOwner),
        c1.has_crate(r1.name@),
        forall|i: int, j: int|
            0 <= i < c1.crates@.len() && 0 <= j < c1.crates@.len() && canon(
                #[trigger] c1.crates@[i].name@,
            ) == canon(r1.name@) && canon(#[trigger] c1.crates@[j].name@) == canon(r1.name@)
                ==> i == j,
{
    let k = c.crates@.len() as int;
    assert(c.crate_index(r1.name@) is None);
    assert(c1.crates@[k].name@ == r1.name@);
    assert(c1.has_crate(r2.name@));
    let k2 = c1.crate_index(r2.name@)->0;
    assert(k2 == k) by {
        if k2 != k {
            assert(canon(c1.crates@[k2].name@) != canon(c1.crates@[k].name@));
        }
    }
    assert(!c1.is_reserved(r2.name@)) by {
        if c1.is_reserved(r2.name@) {
            let i = choose|i: int| 0 <= i < c1.reserved_names@.len() && canon(#[trigger] c1.reserved_names@[i]@) == canon(r2.name@);
            assert(canon(c.reserved_names@[i]@) == canon(r1.name@));
        }
    }
    assert(!c1.owned_by_user(k, r2.user_id)) by {
        if c1.owned_by_user(k, r2.user_id) {
            let i = choose|i: int|
                0 <= i < c1.owners@.len() && (#[trigger] c1.owners@[i]).crate_id == k
                    && c1.owners@[i].owner == Owner::User(r2.user_id);
            if i < c.owners@.len() {
                assert(c1.owners@[i] == c.owners@[i]);
            }
        }
    }
    assert(!c1.owned_by_team_of(k, r2.user_teams@)) by {
        if c1.owned_by_team_of(k, r2.user_teams@) {
            let (i, t) = choose|i: int, t: int|
                0 <= i < c1.owners@.len() && 0 <= t < r2.user_teams@.len() && (#[trigger] c1.owners@[i]).crate_id == k
                    && c1.owners@[i].owner == Owner::Team(#[trigger] r2.user_teams@[t]);
            if i < c.owners@.len() {
                assert(c1.owners@[i] == c.owners@[i]);
            }
        }
    }
}

/// After a version is published, publishing the same crate again under a
/// number that differs only in build metadata (`1.0.0` then `1.0.0+build.1`)
/// is refused as a duplicate.
pub proof fn lemma_build_metadata_duplicate(
    c: Catalog,
    c1: Catalog,
    r1: PublishRequest,
    out: PublishOutcome,
    r2: PublishRequest,
)
    requires
        c.wf(),
        c1.wf(),
        c.publish_check(r1) is Ok,
        publish_post(c, r1, c1, out),
        r2.name@ == r1.name@,
        r2.user_id == r1.user_id,
        r2.user_teams@ == r1.user_teams@,
        r2.daily_version_limit is None,
        strip_build(r2.version@) == strip_build(r1.version@),
    ensures
        c1.publish_check(r2) == Err::<(), TransactionError>(TransactionError::VersionExists),
{
    lemma_republish_reaches_versions(c, c1, r1, out, r2);
    let k = out.crate_id as int;
    let vid = c.versions@.len() as int;
    assert(c1.versions@[vid].crate_id == k);
    assert(c1.has_version(k, r2.version@));
}

/// After a version is published, a further publish of the same crate by the
/// same publisher, with no daily cap, and a number that differs from every
/// earlier one once build metadata is stripped (`1.0.1` after `1.0.0`), is
/// decided by its dependencies alone.
pub proof fn lemma_next_version_accepted(
    c: Catalog,
    c1: Catalog,
    r1: PublishRequest,
    out: PublishOutcome,
    r3: PublishRequest,
)
    requires
        c.wf(),
        c1.wf(),
        c.publish_check(r1) is Ok,
        publish_post(c, r1, c1, out),
        r3.name@ == r1.name@,
        r3.user_id == r1.user_id,
        r3.user_teams@ == r1.user_teams@,
        r3.daily_version_limit is None,
        strip_build(r3.version@) != strip_build(r1.version@),
        !c.has_version(out.crate_id as int, r3.version@),
    ensures
        c1.preliminary_check(r3) is Ok,
        c1.publish_check(r3) == c1.dependency_outcome(r3.dependencies@, r3.name@, false),
{
    lemma_republish_reaches_versions(c, c1, r1, out, r3);
    let k = out.crate_id as int;
    let vid = c.versions@.len() as int;
    assert(!c1.has_version(k, r3.version@)) by {
        if c1.has_version(k, r3.version@) {
            let j = choose|j: int|
                0 <= j < c1.versions@.len() && (#[trigger] c1.versions@[j]).crate_id == k
                    && strip_build(c1.versions@[j].num@) == strip_build(r3.version@);
            if j < vid {
                assert(c1.versions@[j] == c1.versions@.subrange(0, vid)[j]);
            }
        }
    }
}

/// What a second publish of the same crate by the same publisher finds in
/// the catalog that the first left: the name is not reserved, it resolves to
/// the same row, the publisher may publish, and the name is unchanged.
proof fn lemma_republish_reaches_versions(
    c: Catalog,
    c1: Catalog,
    r1: PublishRequest,
    out: PublishOutcome,
    r2: PublishRequest,
)
    requires
        c.wf(),
        c1.wf(),
        c.publish_check(r1) is Ok,
        publish_post(c, r1, c1, out),
        r2.name@ == r1.name@,
        r2.user_id == r1.user_id,
        r2.user_teams@ == r1.user_teams@,
    ensures
        !c1.is_reserved(r2.name@),
        c1.crate_index(r2.name@) == Some(out.crate_id as int),
        c1.rights_spec(out.crate_id as int, r2.user_id, r2.user_teams@).level() >= 2,
        c1.crates@[out.crate_id as int].name@ == r2.name@,
{
    let k = out.crate_id as int;
    assert(c1.crates@[k].name@ == r1.name@);
    assert(c1.has_crate(r2.name@));
    let k2 = c1.crate_index(r2.name@)->0;
    assert(k2 == k) by {
        if k2 != k {
            assert(canon(c1.crates@[k2].name@) != canon(c1.crates@[k].name@));
        }
    }
    if c.crate_index(r1.name@) is None {
        let n = c.owners@.len() as int;
        assert(c1.owners@[n].crate_id == k && c1.owners@[n].owner == Owner::User(r1.user_id));
        assert(c1.owned_by_user(k, r2.user_id));
    } else {
        assert(c1.owners@ == c.owners@);
        assert(c.rights_spec(k, r1.user_id, r1.user_teams@).level() >= 2);
        if c.owned_by_user(k, r1.user_id) {
            assert(c1.owned_by_user(k, r2.user_id));
        } else {
            assert(c.owned_by_team_of(k, r1.user_teams@));
            assert(c1.owned_by_team_of(k, r2.user_teams@));
        }
    }
}

/// A dependency whose requirement accepts any version (`*`) makes the
/// publish fail, whether or not the crate it names exists.
pub proof fn lemma_wildcard_dependency_refused(c: Catalog, r: PublishRequest, i: int)
    requires
        0 <= i < r.dependencies@.len(),
        req_is_wildcard(r.dependencies@[i].version_req@),
    ensures
        c.publish_check(r) is Err,
{
    assert(dependency_check(r.dependencies@[i]) is Err);
    assert(has_bad_dependency(r.dependencies@));
}

/// A dependency that names no crate of the catalog, nor the crate being
/// published, makes the publish fail; where the other checks pass, the
/// failure is that the dependency is unknown.
pub proof fn lemma_unknown_dependency_refused(c: Catalog, r: PublishRequest, i: int)
    requires
        0 <= i < r.dependencies@.len(),
        !c.has_exact(r.dependencies@[i].name@),
        r.dependencies@[i].name@ != r.name@,
    ensures
        c.publish_check(r) is Err,
        c.preliminary_check(r) is Ok && !has_bad_dependency(r.dependencies@) ==> c.publish_check(r)
            matches Err(TransactionError::UnknownDependency(_)),
{
    let is_new = c.crate_index(r.name@) is None;
    assert(!c.resolves(r.dependencies@[i], r.name@, is_new));
    assert(c.has_unresolved(r.dependencies@, r.name@, is_new));
}

} // verus!
