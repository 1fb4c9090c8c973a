//! The annotation task set: one task per data item, each with the
//! annotations that workers have submitted for it.
//!
//! A task set is modelled as the sequence of its tasks in the order in which
//! their identifiers were first given. No identifier occurs twice, and a task
//! is flagged as annotated exactly when it holds at least one annotation.

use vstd::prelude::*;

verus! {

/// What an annotation records.
pub struct AnnotationModel {
    pub annotator: Seq<char>,
    pub posx: u32,
    pub posy: u32,
    pub width: u32,
    pub height: u32,
    pub label: Seq<char>,
}

/// What a task records.
pub struct DataPointModel {
    pub cid: Seq<char>,
    pub annotated: bool,
    pub annotations: Seq<AnnotationModel>,
}

/// A task for `cid` that nobody has annotated.
pub open spec fn fresh_point(cid: Seq<char>) -> DataPointModel {
    DataPointModel { cid, annotated: false, annotations: Seq::empty() }
}

/// The flag of a task says whether it holds an annotation.
pub open spec fn point_well_formed(point: DataPointModel) -> bool {
    point.annotated <==> point.annotations.len() > 0
}

/// No identifier occurs twice and every task is well formed.
pub open spec fn well_formed(points: Seq<DataPointModel>) -> bool {
    &&& forall|i: int, j: int|
        0 <= i < j < points.len() ==> (#[trigger] points[i]).cid != (#[trigger] points[j]).cid
    &&& forall|i: int| 0 <= i < points.len() ==> point_well_formed(#[trigger] points[i])
}

/// Where the task of a data item stands, if the set holds one.
pub open spec fn position(points: Seq<DataPointModel>, cid: Seq<char>) -> Option<int> {
    if exists|i: int| 0 <= i < points.len() && (#[trigger] points[i]).cid == cid {
        Some(choose|i: int| 0 <= i < points.len() && (#[trigger] points[i]).cid == cid)
    } else {
        None
    }
}

/// The task of a data item, if the set holds one.
pub open spec fn task(points: Seq<DataPointModel>, cid: Seq<char>) -> Option<DataPointModel> {
    match position(points, cid) {
        Some(i) => Some(points[i]),
        None => None,
    }
}

/// The number of annotations that a task set holds, over all its tasks.
pub open spec fn annotation_count(points: Seq<DataPointModel>) -> nat
    decreases points.len(),
{
    if points.len() == 0 {
        0
    } else {
        annotation_count(points.drop_last()) + points.last().annotations.len()
    }
}

/// The task set made from a list of identifiers: one fresh task for each, a
/// repeated identifier counting once.
pub open spec fn seeded(cids: Seq<Seq<char>>) -> Seq<DataPointModel>
    decreases cids.len(),
{
    if cids.len() == 0 {
        Seq::empty()
    } else {
        let front = seeded(cids.drop_last());
        if position(front, cids.last()) is Some {
            front
        } else {
            front.push(fresh_point(cids.last()))
        }
    }
}

/// A task with one more annotation at the end of its sequence.
pub open spec fn point_with(point: DataPointModel, annotation: AnnotationModel) -> DataPointModel {
    DataPointModel {
        cid: point.cid,
        annotated: true,
        annotations: point.annotations.push(annotation),
    }
}

/// The task set after `annotation` was recorded for `cid`. A set that holds
/// no task for `cid` stays as it is.
pub open spec fn recorded(
    points: Seq<DataPointModel>,
    cid: Seq<char>,
    annotation: AnnotationModel,
) -> Seq<DataPointModel> {
    match position(points, cid) {
        Some(i) => points.update(i, point_with(points[i], annotation)),
        None => points,
    }
}

/// In a set without repeated identifiers, a task that names the data item is
/// the task of the data item.
pub proof fn lemma_position_found(points: Seq<DataPointModel>, cid: Seq<char>, i: int)
    requires
        well_formed(points),
        0 <= i < points.len(),
        points[i].cid == cid,
    ensures
        position(points, cid) == Some(i),
        task(points, cid) == Some(points[i]),
{
}

/// A data item that no task names has no task.
pub proof fn lemma_position_absent(points: Seq<DataPointModel>, cid: Seq<char>)
    requires
        forall|i: int| 0 <= i < points.len() ==> (#[trigger] points[i]).cid != cid,
    ensures
        position(points, cid) is None,
        task(points, cid) is None,
{
}

/// What seeding gives: a well-formed set that holds a fresh task for exactly
/// the identifiers given.
pub proof fn lemma_seeded(cids: Seq<Seq<char>>)
    ensures
        well_formed(seeded(cids)),
        seeded(cids).len() <= cids.len(),
        annotation_count(seeded(cids)) == 0,
        forall|cid: Seq<char>| #[trigger]
            cids.contains(cid) ==> task(seeded(cids), cid) == Some(fresh_point(cid)),
        forall|cid: Seq<char>| !cids.contains(cid) ==> #[trigger] task(seeded(cids), cid) is None,
    decreases cids.len(),
{
    let set = seeded(cids);
    if cids.len() > 0 {
        let rest = cids.drop_last();
        let last = cids.last();
        let front = seeded(rest);
        lemma_seeded(rest);
        assert forall|cid: Seq<char>| cids.contains(cid) <==> (rest.contains(cid) || cid
            == last) by {
            if cids.contains(cid) {
                let k = choose|k: int| 0 <= k < cids.len() && cids[k] == cid;
                if k < rest.len() {
                    assert(rest[k] == cid);
                }
            }
            if rest.contains(cid) {
                let k = choose|k: int| 0 <= k < rest.len() && rest[k] == cid;
                assert(cids[k] == cid);
            }
            if cid == last {
                assert(cids[cids.len() - 1] == cid);
            }
        }
        if position(front, last) is Some {
            assert(task(front, last) is Some);
            assert(rest.contains(last));
        } else {
            assert forall|i: int| 0 <= i < front.len() implies (#[trigger] front[i]).cid
                != last by {}
            assert(well_formed(set));
            assert(set.drop_last() =~= front);
            lemma_position_found(set, last, front.len() as int);
            assert forall|cid: Seq<char>| cid != last implies task(set, cid) == task(
                front,
                cid,
            ) by {
                lemma_push_keeps_others(front, fresh_point(last), cid);
            }
        }
    } else {
        assert forall|cid: Seq<char>| !cids.contains(cid) by {}
    }
}

/// What recording an annotation does: the set stays well formed and as long
/// as it was, the task of the data item gains the annotation at its end, and
/// every other task stays.
pub proof fn lemma_recorded(
    points: Seq<DataPointModel>,
    cid: Seq<char>,
    annotation: AnnotationModel,
)
    requires
        well_formed(points),
    ensures
        well_formed(recorded(points, cid, annotation)),
        recorded(points, cid, annotation).len() == points.len(),
        annotation_count(recorded(points, cid, annotation)) == annotation_count(points) + (if task(
            points,
            cid,
        ) is Some {
            1nat
        } else {
            0nat
        }),
        task(points, cid) matches Some(before) ==> task(recorded(points, cid, annotation), cid)
            == Some(point_with(before, annotation)),
        task(points, cid) is None ==> recorded(points, cid, annotation) == points,
        forall|other: Seq<char>|
            other != cid ==> #[trigger] task(recorded(points, cid, annotation), other) == task(
                points,
                other,
            ),
{
    let after = recorded(points, cid, annotation);
    match position(points, cid) {
        Some(i) => {
            assert forall|a: int, b: int| 0 <= a < b < after.len() implies (#[trigger] after[a]).cid
                != (#[trigger] after[b]).cid by {
                assert(after[a].cid == points[a].cid);
                assert(after[b].cid == points[b].cid);
            }
            assert forall|a: int| 0 <= a < after.len() implies point_well_formed(
                #[trigger] after[a],
            ) by {
                if a != i {
                    assert(after[a] == points[a]);
                }
            }
            lemma_position_found(after, cid, i);
            lemma_count_update(points, i, point_with(points[i], annotation));
            assert forall|other: Seq<char>| other != cid implies #[trigger] task(after, other)
                == task(points, other) by {
                lemma_update_keeps_others(points, i, point_with(points[i], annotation), other);
            }
        },
        None => {},
    }
}

/// One worker's labelling of a data item: a bounding box and a label.
#[derive(Debug)]
pub struct Annotation {
    pub annotator: String,
    pub posx: u32,
    pub posy: u32,
    pub width: u32,
    pub height: u32,
    pub label: String,
}

impl View for Annotation {
    type V = AnnotationModel;

    open spec fn view(&self) -> AnnotationModel {
        AnnotationModel {
            annotator: self.annotator@,
            posx: self.posx,
            posy: self.posy,
            width: self.width,
            height: self.height,
            label: self.label@,
        }
    }
}

impl Clone for Annotation {
    fn clone(&self) -> (copy: Self)
        ensures
            copy@ == self@,
    {
        Annotation {
            annotator: self.annotator.clone(),
            posx: self.posx,
            posy: self.posy,
            width: self.width,
            height: self.height,
            label: self.label.clone(),
        }
    }
}

/// What a sequence of annotations holds.
pub open spec fn annotations_view(annotations: Seq<Annotation>) -> Seq<AnnotationModel> {
    annotations.map_values(|a: Annotation| a@)
}

/// A data item to annotate, with what has been submitted for it.
#[derive(Debug)]
pub struct DataPoint {
    pub cid: String,
    pub annotated: bool,
    pub annotations: Vec<Annotation>,
}

impl View for DataPoint {
    type V = DataPointModel;

    open spec fn view(&self) -> DataPointModel {
        DataPointModel {
            cid: self.cid@,
            annotated: self.annotated,
            annotations: annotations_view(self.annotations@),
        }
    }
}

impl Clone for DataPoint {
    fn clone(&self) -> (copy: Self)
        ensures
            copy@ == self@,
    {
        let mut annotations: Vec<Annotation> = Vec::new();
        let mut i: usize = 0;
        while i < self.annotations.len()
            invariant
                i <= self.annotations.len(),
                annotations@.len() == i,
                forall|k: int| 0 <= k < i ==> (#[trigger] annotations@[k])@ == self.annotations@[k]@,
            decreases self.annotations.len() - i,
        {
            annotations.push(self.annotations[i].clone());
            i += 1;
        }
        assert(annotations_view(annotations@) =~= annotations_view(self.annotations@));
        DataPoint { cid: self.cid.clone(), annotated: self.annotated, annotations }
    }
}

/// What a sequence of tasks holds.
pub open spec fn points_view(points: Seq<DataPoint>) -> Seq<DataPointModel> {
    points.map_values(|p: DataPoint| p@)
}

/// What a sequence of strings holds.
pub open spec fn names_view(names: Seq<String>) -> Seq<Seq<char>> {
    names.map_values(|n: String| n@)
}

/// The tasks of a project, by data item.
#[derive(Debug)]
pub struct TaskSet {
    points: Vec<DataPoint>,
}

impl View for TaskSet {
    type V = Seq<DataPointModel>;

    closed spec fn view(&self) -> Seq<DataPointModel> {
        points_view(self.points@)
    }
}

impl TaskSet {
    /// The invariant of a task set: no identifier twice, every flag right.
    pub open spec fn wf(&self) -> bool {
        well_formed(self@)
    }

    /// A task set with one fresh task per identifier given.
    pub fn seed(cids: &Vec<String>) -> (set: TaskSet)
        ensures
            set@ == seeded(names_view(cids@)),
            set.wf(),
    {
        let ghost names = names_view(cids@);
        let mut set = TaskSet { points: Vec::new() };
        assert(set@ =~= seeded(names.take(0)));
        proof {
            lemma_seeded(names.take(0));
        }
        let mut i: usize = 0;
        while i < cids.len()
            invariant
                i <= cids.len(),
                names == names_view(cids@),
                set@ == seeded(names.take(i as int)),
                set.wf(),
            decreases cids.len() - i,
        {
            proof {
                assert(names.take(i + 1).drop_last() =~= names.take(i as int));
                assert(names.take(i + 1).last() == cids@[i as int]@);
                lemma_seeded(names.take(i + 1));
            }
            if set.find(&cids[i]).is_none() {
                let ghost front = set@;
                let point = DataPoint {
                    cid: cids[i].clone(),
                    annotated: false,
                    annotations: Vec::new(),
                };
                assert(point@.annotations =~= Seq::<AnnotationModel>::empty());
                assert(point@ == fresh_point(cids@[i as int]@));
                set.points.push(point);
                assert(set@ =~= front.push(fresh_point(cids@[i as int]@)));
            }
            i += 1;
        }
        assert(names.take(i as int) =~= names);
        set
    }

    /// A task set with the given tasks, if they form one: `None` where an
    /// identifier occurs twice or a flag does not match the annotations.
    pub fn from_points(points: Vec<DataPoint>) -> (set: Option<TaskSet>)
        ensures
            set is Some <==> well_formed(points_view(points@)),
            set matches Some(s) ==> s@ == points_view(points@),
    {
        let ghost model = points_view(points@);
        let mut i: usize = 0;
        while i < points.len()
            invariant
                i <= points.len(),
                model == points_view(points@),
                well_formed(model.take(i as int)),
            decreases points.len() - i,
        {
            if points[i].annotated != (points[i].annotations.len() > 0) {
                assert(!point_well_formed(model[i as int]));
                return None;
            }
            let mut j: usize = 0;
            while j < i
                invariant
                    j <= i < points.len(),
                    model == points_view(points@),
                    forall|k: int| 0 <= k < j ==> (#[trigger] model[k]).cid != model[i as int].cid,
                decreases i - j,
            {
                if points[j].cid == points[i].cid {
                    assert(model[j as int].cid == model[i as int].cid);
                    return None;
                }
                j += 1;
            }
            proof {
                let next = model.take(i + 1);
                assert forall|a: int, b: int| 0 <= a < b < next.len() implies (
                #[trigger] next[a]).cid != (#[trigger] next[b]).cid by {
                    if b < i {
                        assert(model.take(i as int)[a] == next[a]);
                        assert(model.take(i as int)[b] == next[b]);
                    }
                }
                assert forall|a: int| 0 <= a < next.len() implies point_well_formed(
                    #[trigger] next[a],
                ) by {
                    if a < i {
                        assert(model.take(i as int)[a] == next[a]);
                    }
                }
            }
            i += 1;
        }
        assert(model.take(i as int) =~= model);
        Some(TaskSet { points })
    }

    /// The number of tasks.
    pub fn len(&self) -> (n: usize)
        ensures
            n == self@.len(),
    {
        self.points.len()
    }

    /// The tasks, in the order in which their identifiers were first given.
    pub fn points(&self) -> (points: &Vec<DataPoint>)
        ensures
            points_view(points@) == self@,
    {
        &self.points
    }

    /// Where the task of `cid` stands.
    pub fn find(&self, cid: &String) -> (at: Option<usize>)
        requires
            self.wf(),
        ensures
            at matches Some(i) ==> position(self@, cid@) == Some(i as int),
            at is None ==> position(self@, cid@) is None,
    {
        let mut i: usize = 0;
        while i < self.points.len()
            invariant
                i <= self.points.len(),
                self@.len() == self.points.len(),
                self.wf(),
                forall|k: int| 0 <= k < i ==> (#[trigger] self@[k]).cid != cid@,
            decreases self.points.len() - i,
        {
            if self.points[i].cid == *cid {
                proof {
                    lemma_position_found(self@, cid@, i as int);
                }
                return Some(i);
            }
            i += 1;
        }
        proof {
            lemma_position_absent(self@, cid@);
        }
        None
    }

    /// The task of `cid`, if the set holds one.
    pub fn get(&self, cid: &String) -> (point: Option<&DataPoint>)
        requires
            self.wf(),
        ensures
            point matches Some(p) ==> task(self@, cid@) == Some(p@),
            point is None ==> task(self@, cid@) is None,
    {
        match self.find(cid) {
            Some(i) => Some(&self.points[i]),
            None => None,
        }
    }

    /// The number of annotations over all tasks, or `None` where it exceeds
    /// `i128`.
    pub fn annotation_count(&self) -> (count: Option<i128>)
        ensures
            count matches Some(n) ==> n == annotation_count(self@),
            count is None ==> annotation_count(self@) > i128::MAX,
    {
        let mut count: i128 = 0;
        let mut i: usize = 0;
        while i < self.points.len()
            invariant
                i <= self.points.len(),
                self@.len() == self.points.len(),
                count == annotation_count(self@.take(i as int)),
            decreases self.points.len() - i,
        {
            let held = self.points[i].annotations.len() as i128;
            proof {
                assert(self@.take(i + 1) =~= self@.take(i as int).push(self@[i as int]));
                lemma_count_push(self@.take(i as int), self@[i as int]);
                assert(self@[i as int].annotations.len() == held);
            }
            if held > i128::MAX - count {
                proof {
                    lemma_count_prefix(self@, i + 1);
                }
                return None;
            }
            count = count + held;
            i += 1;
        }
        assert(self@.take(i as int) =~= self@);
        Some(count)
    }

    /// Appends `annotation` to the task of `cid` and flags the task as
    /// annotated. Nothing is done, and `false` is returned, where the set
    /// holds no task for `cid`.
    pub fn record(&mut self, cid: &String, annotation: Annotation) -> (done: bool)
        requires
            old(self).wf(),
        ensures
            done <==> position(old(self)@, cid@) is Some,
            final(self)@ == recorded(old(self)@, cid@, annotation@),
            final(self).wf(),
    {
        proof {
            lemma_recorded(self@, cid@, annotation@);
        }
        match self.find(cid) {
            Some(i) => {
                let ghost before = self.points@[i as int]@;
                self.points[i].annotated = true;
                self.points[i].annotations.push(annotation);
                assert(self.points@[i as int]@.annotations =~= before.annotations.push(
                    annotation@,
                ));
                assert(self@ =~= recorded(old(self)@, cid@, annotation@));
                true
            },
            None => false,
        }
    }
}

impl Clone for TaskSet {
    fn clone(&self) -> (copy: Self)
        ensures
            copy@ == self@,
    {
        let mut points: Vec<DataPoint> = Vec::new();
        let mut i: usize = 0;
        while i < self.points.len()
            invariant
                i <= self.points.len(),
                points@.len() == i,
                forall|k: int| 0 <= k < i ==> (#[trigger] points@[k])@ == self.points@[k]@,
            decreases self.points.len() - i,
        {
            points.push(self.points[i].clone());
            i += 1;
        }
        let copy = TaskSet { points };
        assert(copy@ =~= self@);
        copy
    }
}

/// Appending a task adds its annotations to the count.
pub proof fn lemma_count_push(points: Seq<DataPointModel>, point: DataPointModel)
    ensures
        annotation_count(points.push(point)) == annotation_count(points) + point.annotations.len(),
{
    assert(points.push(point).drop_last() =~= points);
}

/// Replacing a task changes the count by the difference of the annotations.
pub proof fn lemma_count_update(points: Seq<DataPointModel>, i: int, point: DataPointModel)
    requires
        0 <= i < points.len(),
    ensures
        annotation_count(points.update(i, point)) == annotation_count(points)
            - points[i].annotations.len() + point.annotations.len(),
    decreases points.len(),
{
    let updated = points.update(i, point);
    if i == points.len() - 1 {
        assert(updated.drop_last() =~= points.drop_last());
    } else {
        assert(updated.drop_last() =~= points.drop_last().update(i, point));
        lemma_count_update(points.drop_last(), i, point);
    }
}

proof fn lemma_update_keeps_others(
    points: Seq<DataPointModel>,
    i: int,
    point: DataPointModel,
    other: Seq<char>,
)
    requires
        well_formed(points),
        0 <= i < points.len(),
        point.cid == points[i].cid,
        other != points[i].cid,
    ensures
        task(points.update(i, point), other) == task(points, other),
{
    let after = points.update(i, point);
    match position(points, other) {
        Some(k) => {
            assert(after[k] == points[k]);
            assert(exists|j: int| 0 <= j < after.len() && (#[trigger] after[j]).cid == other);
            let k2 = position(after, other).unwrap();
            assert(after[k2].cid == points[k2].cid);
            assert(k2 == k) by {
                if k2 < k {
                    assert(points[k2].cid != points[k].cid);
                } else if k < k2 {
                    assert(points[k].cid != points[k2].cid);
                }
            }
        },
        None => {
            assert forall|j: int| 0 <= j < after.len() implies (#[trigger] after[j]).cid
                != other by {
                assert(after[j].cid == points[j].cid);
            }
        },
    }
}

/// The tasks up to a point hold no more annotations than all of them.
proof fn lemma_count_prefix(points: Seq<DataPointModel>, n: int)
    requires
        0 <= n <= points.len(),
    ensures
        annotation_count(points.take(n)) <= annotation_count(points),
    decreases points.len() - n,
{
    if n < points.len() {
        assert(points.take(n + 1) =~= points.take(n).push(points[n]));
        lemma_count_push(points.take(n), points[n]);
        lemma_count_prefix(points, n + 1);
    } else {
        assert(points.take(n) =~= points);
    }
}

proof fn lemma_push_keeps_others(
    points: Seq<DataPointModel>,
    point: DataPointModel,
    other: Seq<char>,
)
    requires
        well_formed(points),
        other != point.cid,
    ensures
        task(points.push(point), other) == task(points, other),
{
    let after = points.push(point);
    match position(points, other) {
        Some(k) => {
            assert(after[k] == points[k]);
            assert(exists|j: int| 0 <= j < after.len() && (#[trigger] after[j]).cid == other);
            let k2 = position(after, other).unwrap();
            assert(k2 < points.len());
            assert(after[k2] == points[k2]);
            assert(k2 == k) by {
                if k2 < k {
                    assert(points[k2].cid != points[k].cid);
                } else if k < k2 {
                    assert(points[k].cid != points[k2].cid);
                }
            }
        },
        None => {
            assert forall|j: int| 0 <= j < after.len() implies (#[trigger] after[j]).cid
                != other by {
                if j < points.len() {
                    assert(after[j] == points[j]);
                }
            }
        },
    }
}

} // verus!
