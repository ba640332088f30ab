//! Counting what a replay takes in, and choosing the associations that it takes in.

use vstd::prelude::*;

verus! {

/// What a replay has taken in so far.
#[derive(Clone, Copy, Debug, PartialEq, Eq, Structural)]
pub struct ReplayStats {
    pub imu_ingested: usize,
    pub foot_heights_ingested: usize,
    pub vo_received: usize,
    pub vo_ingested: usize,
    pub vo_dropped_invalid: usize,
    pub vo_dropped_gated: usize,
    pub vo_skipped_missing_camera_matrix: usize,
    pub vo_skipped_stale_camera_matrix: usize,
    pub vo_skipped_head_motion: usize,
    pub pose_updates_reused_unanchored: usize,
    pub global_frames: usize,
    pub global_candidates: usize,
    pub global_none: usize,
    pub global_ambiguous: usize,
    pub global_unique_modulo_symmetry: usize,
    pub global_frames_ingested: usize,
    pub global_associations_ingested: usize,
    pub global_unique_frames_ingested: usize,
    pub global_unique_associations_ingested: usize,
    pub pose_hint_frames_ingested: usize,
    pub pose_hint_associations_ingested: usize,
}

impl ReplayStats {
    /// Nothing was taken in.
    pub open spec fn zero() -> Self {
        ReplayStats {
            imu_ingested: 0,
            foot_heights_ingested: 0,
            vo_received: 0,
            vo_ingested: 0,
            vo_dropped_invalid: 0,
            vo_dropped_gated: 0,
            vo_skipped_missing_camera_matrix: 0,
            vo_skipped_stale_camera_matrix: 0,
            vo_skipped_head_motion: 0,
            pose_updates_reused_unanchored: 0,
            global_frames: 0,
            global_candidates: 0,
            global_none: 0,
            global_ambiguous: 0,
            global_unique_modulo_symmetry: 0,
            global_frames_ingested: 0,
            global_associations_ingested: 0,
            global_unique_frames_ingested: 0,
            global_unique_associations_ingested: 0,
            pose_hint_frames_ingested: 0,
            pose_hint_associations_ingested: 0,
        }
    }
}

impl Default for ReplayStats {
    fn default() -> (stats: Self)
        ensures
            stats == Self::zero(),
    {
        ReplayStats {
            imu_ingested: 0,
            foot_heights_ingested: 0,
            vo_received: 0,
            vo_ingested: 0,
            vo_dropped_invalid: 0,
            vo_dropped_gated: 0,
            vo_skipped_missing_camera_matrix: 0,
            vo_skipped_stale_camera_matrix: 0,
            vo_skipped_head_motion: 0,
            pose_updates_reused_unanchored: 0,
            global_frames: 0,
            global_candidates: 0,
            global_none: 0,
            global_ambiguous: 0,
            global_unique_modulo_symmetry: 0,
            global_frames_ingested: 0,
            global_associations_ingested: 0,
            global_unique_frames_ingested: 0,
            global_unique_associations_ingested: 0,
            pose_hint_frames_ingested: 0,
            pose_hint_associations_ingested: 0,
        }
    }
}

/// How an association of a detected feature with the field was found.
#[derive(Clone, Copy, Debug, PartialEq, Eq, Structural)]
pub enum AssociationKind {
    /// By a unique match of the whole frame.
    GlobalUnique,
    /// Near a pose that was known already.
    PoseHint,
}

/// Whether some association is by a unique match.
pub open spec fn has_global_unique(kinds: Seq<AssociationKind>) -> bool {
    exists|i: int| 0 <= i < kinds.len() && #[trigger] kinds[i] == AssociationKind::GlobalUnique
}

/// The places of the first `count` associations that are by a unique match.
pub open spec fn global_unique_places(kinds: Seq<AssociationKind>, count: int) -> Seq<usize>
    decreases count,
{
    if count <= 0 {
        Seq::empty()
    } else {
        let earlier = global_unique_places(kinds, count - 1);
        if kinds[count - 1] == AssociationKind::GlobalUnique {
            earlier.push((count - 1) as usize)
        } else {
            earlier
        }
    }
}

/// The places of the associations that a frame contributes: those by a unique match where there
/// are some, else all where they are enough.
pub open spec fn kept_associations(
    kinds: Seq<AssociationKind>,
    min_features: usize,
) -> Seq<usize> {
    if has_global_unique(kinds) {
        global_unique_places(kinds, kinds.len() as int)
    } else if kinds.len() >= min_features {
        Seq::new(kinds.len(), |i: int| i as usize)
    } else {
        Seq::empty()
    }
}

/// The associations that a frame contributes are all found in the same way: by a unique match, or
/// near a known pose.
pub proof fn kept_associations_are_of_one_kind(
    kinds: Seq<AssociationKind>,
    min_features: usize,
    i: int,
)
    requires
        kinds.len() <= usize::MAX,
        0 <= i < kept_associations(kinds, min_features).len(),
    ensures
        kept_associations(kinds, min_features)[i] < kinds.len(),
        kinds[kept_associations(kinds, min_features)[i] as int] == (if has_global_unique(kinds) {
            AssociationKind::GlobalUnique
        } else {
            AssociationKind::PoseHint
        }),
{
    if has_global_unique(kinds) {
        global_unique_places_are_unique_matches(kinds, kinds.len() as int, i);
    } else {
        assert(kinds[i] != AssociationKind::GlobalUnique);
    }
}

/// The places listed for unique matches are those of unique matches.
proof fn global_unique_places_are_unique_matches(
    kinds: Seq<AssociationKind>,
    count: int,
    i: int,
)
    requires
        0 <= count <= kinds.len() <= usize::MAX,
        0 <= i < global_unique_places(kinds, count).len(),
    ensures
        global_unique_places(kinds, count)[i] < count,
        kinds[global_unique_places(kinds, count)[i] as int] == AssociationKind::GlobalUnique,
        global_unique_places(kinds, count).len() <= count,
    decreases count,
{
    let earlier = global_unique_places(kinds, count - 1);
    if i < earlier.len() {
        global_unique_places_are_unique_matches(kinds, count - 1, i);
    } else if earlier.len() > 0 {
        global_unique_places_are_unique_matches(kinds, count - 1, 0);
    }
}

/// A frame contributes no more associations than it has.
pub proof fn kept_associations_are_bounded(kinds: Seq<AssociationKind>, min_features: usize)
    requires
        kinds.len() <= usize::MAX,
    ensures
        kept_associations(kinds, min_features).len() <= kinds.len(),
        has_global_unique(kinds) ==> kept_associations(kinds, min_features).len() > 0,
{
    let places = global_unique_places(kinds, kinds.len() as int);
    if places.len() > 0 {
        global_unique_places_are_unique_matches(kinds, kinds.len() as int, 0);
    }
    if has_global_unique(kinds) {
        let i = choose|i: int|
            0 <= i < kinds.len() && #[trigger] kinds[i] == AssociationKind::GlobalUnique;
        unique_match_is_listed(kinds, kinds.len() as int, i);
    }
}

/// A unique match makes the list of unique matches non-empty.
proof fn unique_match_is_listed(kinds: Seq<AssociationKind>, count: int, i: int)
    requires
        0 <= i < count <= kinds.len(),
        kinds[i] == AssociationKind::GlobalUnique,
    ensures
        global_unique_places(kinds, count).len() > 0,
    decreases count,
{
    if i < count - 1 {
        unique_match_is_listed(kinds, count - 1, i);
    }
}

/// The places listed for unique matches are all of them, in ascending order.
proof fn global_unique_places_are_all(kinds: Seq<AssociationKind>, count: int)
    requires
        0 <= count <= kinds.len() <= usize::MAX,
    ensures
        forall|place: usize| #[trigger]
            global_unique_places(kinds, count).contains(place) <==> place < count
                && kinds[place as int] == AssociationKind::GlobalUnique,
        forall|i: int, j: int|
            #![trigger global_unique_places(kinds, count)[i], global_unique_places(kinds, count)[j]]
            0 <= i < j < global_unique_places(kinds, count).len() ==> global_unique_places(
                kinds,
                count,
            )[i] < global_unique_places(kinds, count)[j],
    decreases count,
{
    if count > 0 {
        global_unique_places_are_all(kinds, count - 1);
        let earlier = global_unique_places(kinds, count - 1);
        let places = global_unique_places(kinds, count);
        let last = (count - 1) as usize;
        assert forall|place: usize| #[trigger] places.contains(place) <==> place < count
            && kinds[place as int] == AssociationKind::GlobalUnique by {
            assert(earlier.contains(place) <==> place < count - 1 && kinds[place as int]
                == AssociationKind::GlobalUnique);
            if places.contains(place) {
                let i = choose|i: int| 0 <= i < places.len() && places[i] == place;
                if i < earlier.len() {
                    assert(earlier[i] == place);
                }
            }
            if earlier.contains(place) {
                let i = choose|i: int| 0 <= i < earlier.len() && earlier[i] == place;
                assert(places[i] == place);
            }
            if place == last && kinds[place as int] == AssociationKind::GlobalUnique {
                assert(places[earlier.len() as int] == place);
            }
        }
        assert forall|i: int, j: int|
            #![trigger places[i], places[j]]
            0 <= i < j < places.len() implies places[i] < places[j] by {
            if j == earlier.len() {
                assert(earlier[i] == places[i]);
                assert(earlier.contains(places[i]));
            } else {
                assert(earlier[i] < earlier[j]);
            }
        }
    }
}

/// Where an association is by a unique match, a frame contributes all that are, and no other; else
/// it contributes all associations where they are enough, and none where they are not. They are
/// listed in ascending order.
pub proof fn contributed_associations_are_listed(kinds: Seq<AssociationKind>, min_features: usize)
    requires
        kinds.len() <= usize::MAX,
    ensures
        ({
            let kept = kept_associations(kinds, min_features);
            let unique = exists|i: int|
                0 <= i < kinds.len() && #[trigger] kinds[i] == AssociationKind::GlobalUnique;
            &&& forall|place: usize| #[trigger]
                kept.contains(place) <==> place < kinds.len() && if unique {
                    kinds[place as int] == AssociationKind::GlobalUnique
                } else {
                    kinds.len() >= min_features
                }
            &&& forall|i: int, j: int|
                #![trigger kept[i], kept[j]]
                0 <= i < j < kept.len() ==> kept[i] < kept[j]
        }),
{
    global_unique_places_are_all(kinds, kinds.len() as int);
    let kept = kept_associations(kinds, min_features);
    if !has_global_unique(kinds) && kinds.len() >= min_features {
        assert forall|place: usize| place < kinds.len() implies #[trigger] kept.contains(place) by {
            assert(kept[place as int] == place);
        }
    }
}

/// Chooses the associations that a frame contributes.
pub fn localization_visual_associations(
    kinds: &[AssociationKind],
    pose_hint_visual_min_features_per_frame: usize,
) -> (kept: Vec<usize>)
    ensures
        kept@ == kept_associations(kinds@, pose_hint_visual_min_features_per_frame),
{
    let mut unique: Vec<usize> = Vec::new();
    let mut all: Vec<usize> = Vec::new();
    let mut index: usize = 0;
    while index < kinds.len()
        invariant
            index <= kinds@.len(),
            unique@ == global_unique_places(kinds@, index as int),
            all@.len() == index,
            forall|i: int| 0 <= i < index ==> all@[i] == i,
            unique@.len() == 0 ==> forall|i: int|
                0 <= i < index ==> #[trigger] kinds@[i] != AssociationKind::GlobalUnique,
            unique@.len() > 0 ==> has_global_unique(kinds@),
        decreases kinds@.len() - index,
    {
        if kinds[index] == AssociationKind::GlobalUnique {
            unique.push(index);
        }
        all.push(index);
        index = index + 1;
    }
    if unique.len() > 0 {
        unique
    } else if all.len() >= pose_hint_visual_min_features_per_frame {
        assert(all@ =~= Seq::new(kinds@.len(), |i: int| i as usize));
        all
    } else {
        Vec::new()
    }
}

/// The statistics after a frame has contributed `kept` of its associations.
pub open spec fn with_ingested_associations(
    stats: ReplayStats,
    kinds: Seq<AssociationKind>,
    kept: nat,
) -> ReplayStats {
    let unique = has_global_unique(kinds);
    ReplayStats {
        global_frames_ingested: (stats.global_frames_ingested + 1) as usize,
        global_associations_ingested: (stats.global_associations_ingested + kept) as usize,
        global_unique_frames_ingested: (stats.global_unique_frames_ingested + if unique {
            1int
        } else {
            0int
        }) as usize,
        global_unique_associations_ingested: (stats.global_unique_associations_ingested + if unique {
            kept as int
        } else {
            0int
        }) as usize,
        pose_hint_frames_ingested: (stats.pose_hint_frames_ingested + if unique {
            0int
        } else {
            1int
        }) as usize,
        pose_hint_associations_ingested: (stats.pose_hint_associations_ingested + if unique {
            0int
        } else {
            kept as int
        }) as usize,
        ..stats
    }
}

/// The number of associations found in a given way.
pub open spec fn count_of_kind(kinds: Seq<AssociationKind>, kind: AssociationKind) -> nat
    decreases kinds.len(),
{
    if kinds.len() == 0 {
        0
    } else {
        count_of_kind(kinds.drop_last(), kind) + if kinds.last() == kind {
            1nat
        } else {
            0nat
        }
    }
}

/// The number with one more where a condition holds.
pub open spec fn one_more_if(number: usize, condition: bool) -> usize {
    if condition {
        (number + 1) as usize
    } else {
        number
    }
}

/// The statistics after associations were counted by the way in which they were found.
pub open spec fn with_counted_associations(
    stats: ReplayStats,
    kinds: Seq<AssociationKind>,
) -> ReplayStats {
    let unique = count_of_kind(kinds, AssociationKind::GlobalUnique);
    let hints = count_of_kind(kinds, AssociationKind::PoseHint);
    ReplayStats {
        global_unique_frames_ingested: one_more_if(
            stats.global_unique_frames_ingested,
            unique > 0,
        ),
        global_unique_associations_ingested: (stats.global_unique_associations_ingested
            + unique) as usize,
        pose_hint_frames_ingested: one_more_if(stats.pose_hint_frames_ingested, hints > 0),
        pose_hint_associations_ingested: (stats.pose_hint_associations_ingested + hints) as usize,
        ..stats
    }
}

/// Every association was found in one of the two ways.
pub proof fn kinds_add_up(kinds: Seq<AssociationKind>)
    ensures
        count_of_kind(kinds, AssociationKind::GlobalUnique) + count_of_kind(
            kinds,
            AssociationKind::PoseHint,
        ) == kinds.len(),
    decreases kinds.len(),
{
    if kinds.len() > 0 {
        kinds_add_up(kinds.drop_last());
    }
}

/// Associations that were all found in the same way are all counted under it.
proof fn one_kind_is_counted(kinds: Seq<AssociationKind>, kind: AssociationKind)
    requires
        forall|i: int| 0 <= i < kinds.len() ==> #[trigger] kinds[i] == kind,
    ensures
        count_of_kind(kinds, kind) == kinds.len(),
    decreases kinds.len(),
{
    if kinds.len() > 0 {
        one_kind_is_counted(kinds.drop_last(), kind);
    }
}

/// The ways in which the associations at the given places were found.
pub open spec fn kinds_at(kinds: Seq<AssociationKind>, places: Seq<usize>) -> Seq<AssociationKind> {
    Seq::new(places.len(), |i: int| kinds[places[i] as int])
}

/// A frame that contributes some of its associations is counted under the way in which they were
/// found, together with all of them.
pub proof fn contributing_frame_is_counted_once(
    stats: ReplayStats,
    kinds: Seq<AssociationKind>,
    min_features: usize,
)
    requires
        kinds.len() <= usize::MAX,
        kept_associations(kinds, min_features).len() > 0,
    ensures
        ({
            let kept = kept_associations(kinds, min_features);
            with_counted_associations(
                ReplayStats {
                    global_frames_ingested: (stats.global_frames_ingested + 1) as usize,
                    global_associations_ingested: (stats.global_associations_ingested
                        + kept.len()) as usize,
                    ..stats
                },
                kinds_at(kinds, kept),
            ) == with_ingested_associations(stats, kinds, kept.len())
        }),
{
    let kept = kept_associations(kinds, min_features);
    let chosen = kinds_at(kinds, kept);
    let kind = if has_global_unique(kinds) {
        AssociationKind::GlobalUnique
    } else {
        AssociationKind::PoseHint
    };
    assert forall|i: int| 0 <= i < chosen.len() implies #[trigger] chosen[i] == kind by {
        kept_associations_are_of_one_kind(kinds, min_features, i);
    }
    one_kind_is_counted(chosen, kind);
    kinds_add_up(chosen);
}

/// Picks the ways in which the associations at the given places were found.
pub(crate) fn pick_kinds(kinds: &[AssociationKind], places: &Vec<usize>) -> (picked: Vec<
    AssociationKind,
>)
    requires
        forall|i: int| 0 <= i < places@.len() ==> #[trigger] places@[i] < kinds@.len(),
    ensures
        picked@ == kinds_at(kinds@, places@),
{
    let mut picked: Vec<AssociationKind> = Vec::new();
    let mut index: usize = 0;
    while index < places.len()
        invariant
            forall|i: int| 0 <= i < places@.len() ==> #[trigger] places@[i] < kinds@.len(),
            index <= places@.len(),
            picked@.len() == index,
            forall|i: int| 0 <= i < index ==> picked@[i] == kinds@[places@[i] as int],
        decreases places@.len() - index,
    {
        let place: usize = places[index];
        picked.push(kinds[place]);
        index = index + 1;
    }
    picked
}

/// Counts associations by the way in which they were found.
pub fn record_ingested_association_stats(stats: &mut ReplayStats, associations: &[AssociationKind])
    requires
        old(stats).global_unique_frames_ingested < usize::MAX,
        old(stats).pose_hint_frames_ingested < usize::MAX,
        old(stats).global_unique_associations_ingested + associations@.len() <= usize::MAX,
        old(stats).pose_hint_associations_ingested + associations@.len() <= usize::MAX,
    ensures
        *final(stats) == with_counted_associations(*old(stats), associations@),
{
    let mut global_unique_count: usize = 0;
    let mut pose_hint_count: usize = 0;
    let mut index: usize = 0;
    while index < associations.len()
        invariant
            index <= associations@.len(),
            global_unique_count + pose_hint_count == index,
            global_unique_count == count_of_kind(
                associations@.take(index as int),
                AssociationKind::GlobalUnique,
            ),
            pose_hint_count == count_of_kind(
                associations@.take(index as int),
                AssociationKind::PoseHint,
            ),
        decreases associations@.len() - index,
    {
        assert(associations@.take(index + 1).drop_last() =~= associations@.take(index as int));
        if associations[index] == AssociationKind::GlobalUnique {
            global_unique_count = global_unique_count + 1;
        } else {
            pose_hint_count = pose_hint_count + 1;
        }
        index = index + 1;
    }
    assert(associations@.take(associations@.len() as int) =~= associations@);
    if global_unique_count > 0 {
        stats.global_unique_frames_ingested = stats.global_unique_frames_ingested + 1;
        stats.global_unique_associations_ingested = stats.global_unique_associations_ingested
            + global_unique_count;
    }
    if pose_hint_count > 0 {
        stats.pose_hint_frames_ingested = stats.pose_hint_frames_ingested + 1;
        stats.pose_hint_associations_ingested = stats.pose_hint_associations_ingested
            + pose_hint_count;
    }
}

/// Associations are counted by the way in which they were found, and a frame is counted under each
/// way in which one of its associations was found. Nothing else is counted.
pub proof fn associations_are_counted_by_kind(stats: ReplayStats, kinds: Seq<AssociationKind>)
    requires
        stats.global_unique_frames_ingested < usize::MAX,
        stats.pose_hint_frames_ingested < usize::MAX,
        stats.global_unique_associations_ingested + kinds.len() <= usize::MAX,
        stats.pose_hint_associations_ingested + kinds.len() <= usize::MAX,
    ensures
        ({
            let counted = with_counted_associations(stats, kinds);
            let unique = kinds.filter(|kind: AssociationKind| kind is GlobalUnique).len();
            let hints = kinds.filter(|kind: AssociationKind| kind is PoseHint).len();
            &&& counted.global_unique_associations_ingested
                == stats.global_unique_associations_ingested + unique
            &&& counted.pose_hint_associations_ingested == stats.pose_hint_associations_ingested
                + hints
            &&& counted.global_unique_frames_ingested == stats.global_unique_frames_ingested + (
            if unique > 0 {
                1int
            } else {
                0
            })
            &&& counted.pose_hint_frames_ingested == stats.pose_hint_frames_ingested + (if hints
                > 0 {
                1int
            } else {
                0
            })
            &&& counted == (ReplayStats {
                global_unique_associations_ingested: counted.global_unique_associations_ingested,
                pose_hint_associations_ingested: counted.pose_hint_associations_ingested,
                global_unique_frames_ingested: counted.global_unique_frames_ingested,
                pose_hint_frames_ingested: counted.pose_hint_frames_ingested,
                ..stats
            })
        }),
{
    counted_kinds_are_filtered(kinds);
    kinds_add_up(kinds);
}

/// The number of associations of a kind is that of those which are.
proof fn counted_kinds_are_filtered(kinds: Seq<AssociationKind>)
    ensures
        count_of_kind(kinds, AssociationKind::GlobalUnique) == kinds.filter(
            |kind: AssociationKind| kind is GlobalUnique,
        ).len(),
        count_of_kind(kinds, AssociationKind::PoseHint) == kinds.filter(
            |kind: AssociationKind| kind is PoseHint,
        ).len(),
    decreases kinds.len(),
{
    reveal(Seq::filter);
    if kinds.len() > 0 {
        counted_kinds_are_filtered(kinds.drop_last());
    }
}

} // verus!
