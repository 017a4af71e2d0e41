use kompost::{
    collect, take, AnonymousIterator, AnonymouslyIterable, ComposedIterable, ComposedIterator,
    Counted, Cursor, Lazy, Pull,
};

#[test]
fn identity_composition_reproduces_source() {
    let a = AnonymousIterator::new(Cursor::new(vec![1, 2, 3]), |c: Cursor<i32>| c, Pull);
    assert_eq!(collect(a), vec![1, 2, 3]);
}

#[test]
fn identity_composition_empty_source() {
    let a = AnonymousIterator::new(Cursor::new(Vec::<i32>::new()), |c: Cursor<i32>| c, Pull);
    assert_eq!(collect(a), Vec::<i32>::new());
}

#[test]
fn anonymous_from_any_source() {
    let a = vec![1, 2, 3].anonymous(|v: Vec<i32>| Cursor::new(v), Pull);
    assert_eq!(collect(a), vec![1, 2, 3]);
}

#[test]
fn anonymous_context_built_from_whole_source() {
    let a = vec![1, 2, 3].anonymous(|v: Vec<i32>| {
        let w: Vec<i32> = v.iter().rev().map(|x| x + 4).collect();
        Cursor::new(w)
    }, Pull);
    assert_eq!(collect(a), vec![7, 6, 5]);
}

#[test]
fn anonymous_stays_exhausted() {
    let mut a = vec![5].anonymous(|v: Vec<i32>| Cursor::new(v), Pull);
    assert_eq!(a.next(), Some(5));
    assert_eq!(a.next(), None);
    assert_eq!(a.next(), None);
}

#[test]
fn composed_applies_pipeline_once() {
    let c = vec![1, 2, 3, 4, 5, 6, 7].composed(|v: Vec<i32>| {
        let w: Vec<i32> = v.into_iter().skip(5).map(|x| x * x).collect();
        Cursor::new(w)
    });
    assert_eq!(collect(c), vec![36, 49]);
}

#[test]
fn composed_new_matches_method() {
    let c = ComposedIterator::new(vec![9, 8], |v: Vec<i32>| Cursor::new(v));
    assert_eq!(collect(c), vec![9, 8]);
}

#[test]
fn take_pulls_only_what_is_asked() {
    let source = Counted::new(Cursor::new(vec![1, 2, 3, 4, 5, 6]));
    let mut pipeline = source.anonymous(|c: Counted<Cursor<i32>>| c, Pull);
    assert_eq!(take(&mut pipeline, 2), vec![1, 2]);
    assert_eq!(pipeline.get_context().drawn(), 2);
    assert_eq!(pipeline.next(), Some(3));
    assert_eq!(pipeline.get_context().drawn(), 3);
}

#[test]
fn take_through_composed_stage_draws_lazily() {
    let source = Counted::new(Cursor::new(vec![10, 20, 30]));
    let mut pipeline = source.composed(|c: Counted<Cursor<i32>>| c);
    assert_eq!(pipeline.get_inner().drawn(), 0);
    assert_eq!(take(&mut pipeline, 1), vec![10]);
    assert_eq!(pipeline.get_inner().drawn(), 1);
}

#[test]
fn take_past_end_stops_at_end() {
    let mut source = Counted::new(Cursor::new(vec![1, 2]));
    assert_eq!(take(&mut source, 5), vec![1, 2]);
    assert_eq!(source.drawn(), 2);
    assert_eq!(source.next(), None);
    assert_eq!(source.drawn(), 2);
}


#[test]
fn composed_stage_runs_periodic_windows() {
    let a = [1, 2, 3, 4];
    let w = a[..].composed(|s: &[i32]| kompost::compounds::periodic_windows(3, s));
    let flat: Vec<i32> = collect(w).into_iter().flat_map(|x| collect(x).into_iter().copied()).collect();
    assert_eq!(flat, vec![1, 2, 3, 2, 3, 4, 3, 4, 1, 4, 1, 2]);
}
