//! Measurement harness: aggregation of result rows into minimum, maximum
//! and frequency distribution.

use lamina::event::Event;
use lamina::frequency;
use lamina::minmax;
use lamina::pmc::PerfCtlDescriptor;
use lamina::PMCResults;
use lamina::PMCTest;

#[test]
fn minmax_of_mixed_samples() {
    assert_eq!(minmax(&vec![3, 1, 2]), (1, 3));
    assert_eq!(minmax(&vec![9]), (9, 9));
    assert_eq!(minmax(&vec![5, 5, 5]), (5, 5));
    assert_eq!(minmax(&vec![0, usize::MAX]), (0, usize::MAX));
}

#[test]
fn frequency_counts_every_value() {
    let t = frequency(&vec![5, 5, 7]);
    assert_eq!(t, vec![(5, 2), (7, 1)]);
    let t = frequency(&vec![1, 2, 1, 3, 2, 1]);
    assert_eq!(t, vec![(1, 3), (2, 2), (3, 1)]);
    assert_eq!(frequency(&vec![]), vec![]);
}

#[test]
fn results_follow_descriptor_channels() {
    let desc = PerfCtlDescriptor::new().set(0, Event::ExRetInstr(0)).set(2, Event::ExRetCops(0));
    let res = PMCResults::new(&desc);
    assert_eq!(res.event[0], Some(Event::ExRetInstr(0)));
    assert_eq!(res.event[1], None);
    assert!(res.data[0].is_some());
    assert!(res.data[1].is_none());
    assert!(res.data[2].is_some());
    assert_eq!(res.data[0].as_ref().unwrap().len(), 0);
}

#[test]
fn record_rows_per_channel() {
    let desc = PerfCtlDescriptor::new().set(0, Event::ExRetInstr(0)).set(5, Event::LsRdTsc(0));
    let mut res = PMCResults::new(&desc);
    res.record_row(&vec![10, 11, 12, 13, 14, 15]);
    res.record_row(&vec![20, 21, 22, 23, 24, 25]);
    assert_eq!(res.data[0].as_ref().unwrap(), &vec![10, 20]);
    assert_eq!(res.data[5].as_ref().unwrap(), &vec![15, 25]);
    assert!(res.data[1].is_none());
}

#[test]
fn ctr_minmax_per_channel() {
    let desc = PerfCtlDescriptor::new().set(0, Event::ExRetInstr(0));
    let mut res = PMCResults::new(&desc);
    res.record_row(&vec![8, 0, 0, 0, 0, 0]);
    res.record_row(&vec![3, 0, 0, 0, 0, 0]);
    res.record_row(&vec![5, 0, 0, 0, 0, 0]);
    assert_eq!(res.ctr_minmax(0), Some((3, 8)));
    assert_eq!(res.ctr_minmax(1), None);
}

#[test]
fn constant_stub_aggregates() {
    // A deterministic stub gadget returning the constant 7 on every call:
    // after n runs the minimum and maximum are 7 and the distribution has
    // the single key 7 with count n.
    let v: usize = 7;
    let n: usize = 5;
    let desc = PerfCtlDescriptor::new().set(0, Event::ExRetInstr(0));
    let mut test = PMCTest::new("constant stub", 16, &desc);
    for _ in 0..n {
        test.record_run(&vec![v, 0, 0, 0, 0, 0]);
    }
    assert_eq!(test.res.ctr_minmax(0), Some((v, v)));
    let samples = test.res.data[0].as_ref().unwrap();
    assert_eq!(samples.len(), n);
    assert_eq!(frequency(samples), vec![(v, n)]);
    assert_eq!(minmax(samples), (v, v));
}

#[test]
fn test_metadata_is_kept() {
    let desc = PerfCtlDescriptor::new().set(1, Event::ExRetBrn(0));
    let test = PMCTest::new("branch burst", 4096, &desc);
    assert_eq!(test.name, "branch burst");
    assert_eq!(test.size, 4096);
    assert_eq!(test.res.event[1], Some(Event::ExRetBrn(0)));
}
