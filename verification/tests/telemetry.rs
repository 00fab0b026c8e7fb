use holter_host::vis::{GroupId, Point, PointDesc, VisSelectedGroup, VisStep, VisStream};

fn point(group_id: GroupId, ch_cnt: u8, sample: Vec<i32>) -> Point {
    Point::PointV(PointDesc { group_id, ch_cnt }, sample)
}

fn ecg(value: i32) -> Point {
    point(GroupId::ECG, 8, vec![value; 8])
}

#[test]
fn one_of_eight_ecg_samples_is_forwarded_divided_by_100() {
    let mut stream = VisStream::new();
    let frame: Vec<Point> = (0..24).map(|i| ecg(i * 1000)).collect();
    let step = stream.vis_update(true, VisSelectedGroup::ECG, Some(frame));
    assert_eq!(
        step,
        VisStep::Forward(vec![vec![0; 8], vec![80; 8], vec![160; 8]])
    );
    assert_eq!(stream.cnt, 24);
}

#[test]
fn the_count_goes_on_from_frame_to_frame() {
    let mut stream = VisStream::new();
    let first: Vec<Point> = (0..5).map(|i| ecg(i * 100)).collect();
    let second: Vec<Point> = (5..10).map(|i| ecg(i * 100)).collect();
    assert_eq!(
        stream.vis_update(true, VisSelectedGroup::ECG, Some(first)),
        VisStep::Forward(vec![vec![0; 8]])
    );
    assert_eq!(
        stream.vis_update(true, VisSelectedGroup::ECG, Some(second)),
        VisStep::Forward(vec![vec![8; 8]])
    );
    assert_eq!(stream.cnt, 10);
}

#[test]
fn values_are_rounded_towards_zero() {
    let mut stream = VisStream::new();
    let sample = vec![199, -199, 100, -100, 99, -99, i32::MAX, i32::MIN];
    assert_eq!(
        stream.dispatch_point(VisSelectedGroup::ECG, &point(GroupId::ECG, 8, sample)),
        Some(vec![1, -1, 1, -1, 0, 0, 21474836, -21474836])
    );
}

#[test]
fn other_groups_are_forwarded_whole() {
    let mut stream = VisStream::new();
    let frame = vec![
        point(GroupId::REO, 1, vec![100]),
        point(GroupId::REO, 1, vec![-149]),
        point(GroupId::REO, 1, vec![50]),
    ];
    assert_eq!(
        stream.vis_update(true, VisSelectedGroup::REO, Some(frame)),
        VisStep::Forward(vec![vec![2], vec![-2], vec![1]])
    );
    let frame = vec![point(GroupId::ACC_IN, 3, vec![8, -17, 7]), point(GroupId::ACC_IN, 3, vec![0, 80, -8])];
    assert_eq!(
        stream.vis_update(true, VisSelectedGroup::ACC_IN, Some(frame)),
        VisStep::Forward(vec![vec![1, -2, 0], vec![0, 10, -1]])
    );
    assert_eq!(stream.cnt, 0);
}

#[test]
fn points_of_other_groups_are_dropped() {
    let mut stream = VisStream::new();
    let frame = vec![
        point(GroupId::REO, 1, vec![100]),
        point(GroupId::ECG, 4, vec![1, 2, 3, 4]),
        point(GroupId::OTHER, 8, vec![0; 8]),
        Point::EventV(vec![1, 2, 3]),
        ecg(500),
        point(GroupId::ACC_IN, 3, vec![1, 2, 3]),
    ];
    assert_eq!(
        stream.vis_update(true, VisSelectedGroup::ECG, Some(frame)),
        VisStep::Forward(vec![vec![5; 8]])
    );
    assert_eq!(stream.cnt, 1);
}

#[test]
fn a_stopped_stream_forwards_nothing() {
    let mut stream = VisStream { cnt: 8 };
    assert_eq!(stream.vis_update(false, VisSelectedGroup::ECG, Some(vec![ecg(100)])), VisStep::Stop);
    assert_eq!(stream.cnt, 8);
    assert_eq!(stream.vis_update(false, VisSelectedGroup::ECG, None), VisStep::Stop);
}

#[test]
fn a_frame_that_did_not_open_forwards_nothing() {
    let mut stream = VisStream { cnt: 3 };
    assert_eq!(stream.vis_update(true, VisSelectedGroup::ECG, None), VisStep::Forward(vec![]));
    assert_eq!(stream.cnt, 3);
}

#[test]
fn the_counter_wraps() {
    let mut stream = VisStream { cnt: usize::MAX };
    assert_eq!(stream.dispatch_point(VisSelectedGroup::ECG, &ecg(100)), None);
    assert_eq!(stream.cnt, 0);
    assert_eq!(stream.dispatch_point(VisSelectedGroup::ECG, &ecg(100)), Some(vec![1; 8]));
    assert_eq!(stream.cnt, 1);
}

#[test]
fn groups_are_selected_by_name() {
    assert_eq!(VisSelectedGroup::from_name("ECG"), Some(VisSelectedGroup::ECG));
    assert_eq!(VisSelectedGroup::from_name("REO"), Some(VisSelectedGroup::REO));
    assert_eq!(VisSelectedGroup::from_name("ACC_IN"), Some(VisSelectedGroup::ACC_IN));
    assert_eq!(VisSelectedGroup::from_name("ecg"), None);
    assert_eq!(VisSelectedGroup::default(), VisSelectedGroup::ECG);
}
