use std::cmp::Ordering;

use hpc::decimal::{parse_u64, render_u64};
use hpc::facts::{Comparable, Facts, JobInfo, NodeInfo};
use hpc::lattice::{Lattice, OrderBot};
use hpc::str_map::StrMap;
use hpc::write_once::WriteOnce;

fn set_of(xs: &[u64]) -> WriteOnce<u64> {
    let mut w = WriteOnce::empty();
    for x in xs {
        w.insert(*x);
    }
    w
}

fn sorted(w: &WriteOnce<u64>) -> Vec<u64> {
    let mut v = w.to_vec();
    v.sort();
    v
}

fn job(phase: u64, ns: &[&str], priority: u64, resources: &[u64]) -> JobInfo {
    let mut namespace_id = WriteOnce::empty();
    for n in ns {
        namespace_id.insert(n.to_string());
    }
    JobInfo { phase, namespace_id, priority, resources: set_of(resources) }
}

fn same_job(a: &JobInfo, b: &JobInfo) -> bool {
    a.partial_cmp(b) == Some(Ordering::Equal)
}

fn facts_with_jobs(entries: &[(&str, JobInfo)]) -> Facts {
    let mut f = Facts::new();
    for (k, v) in entries {
        f.jobs.insert(k.to_string(), v.clone());
    }
    f
}

fn job_ids(f: &Facts) -> Vec<String> {
    let mut v: Vec<String> = (0..f.jobs.len()).map(|i| f.jobs.key_at(i).clone()).collect();
    v.sort();
    v
}

#[test]
fn u64_and_bool_lattices() {
    assert_eq!(3u64.join(&7), 7);
    assert_eq!(3u64.meet(&7), 3);
    assert_eq!(<u64 as OrderBot>::bot(), 0);
    assert!(true.join(&false));
    assert!(!true.meet(&false));
    assert!(!<bool as OrderBot>::bot());
    assert!(0u64.is_bot());
    assert!(!5u64.is_bot());
}

#[test]
fn write_once_new_and_pick() {
    let w = WriteOnce::new(5u64);
    assert_eq!(w.pick(), Some(5));
    assert!(w.contains(&5));
    assert!(!w.contains(&6));
    let e: WriteOnce<u64> = WriteOnce::empty();
    assert_eq!(e.pick(), None);
    assert!(e.is_empty());
    assert!(e.is_bot());
    let d: WriteOnce<u64> = Default::default();
    assert!(d.is_empty());
}

#[test]
fn write_once_insert_keeps_one_copy() {
    let mut w = WriteOnce::new(1u64);
    w.insert(1);
    w.insert(2);
    assert_eq!(sorted(&w), vec![1, 2]);
}

#[test]
fn write_once_join_is_union_and_meet_is_intersection() {
    let a = set_of(&[1, 2, 3]);
    let b = set_of(&[3, 4]);
    assert_eq!(sorted(&a.join(&b)), vec![1, 2, 3, 4]);
    assert_eq!(sorted(&a.meet(&b)), vec![3]);
    assert_eq!(sorted(&a.join(&WriteOnce::bot())), vec![1, 2, 3]);
    assert!(a.meet(&WriteOnce::bot()).is_empty());
}

#[test]
fn write_once_partial_cmp_is_inclusion() {
    let a = set_of(&[1, 2]);
    let b = set_of(&[1, 2, 3]);
    let c = set_of(&[4]);
    assert_eq!(a.partial_cmp(&set_of(&[2, 1])), Some(Ordering::Equal));
    assert_eq!(a.partial_cmp(&b), Some(Ordering::Less));
    assert_eq!(b.partial_cmp(&a), Some(Ordering::Greater));
    assert_eq!(a.partial_cmp(&c), None);
    assert!(a.is_subset(&b));
    assert!(!b.is_subset(&a));
}

#[test]
fn write_once_string_members() {
    let a = WriteOnce::new("batch".to_string());
    let b = WriteOnce::new("simulation".to_string());
    let j = a.join(&b);
    let mut v = j.to_vec();
    v.sort();
    assert_eq!(v, vec!["batch".to_string(), "simulation".to_string()]);
    assert!(a.clone().contains(&"batch".to_string()));
}

#[test]
fn write_once_laws_on_values() {
    let a = set_of(&[1, 2]);
    let b = set_of(&[2, 5]);
    let c = set_of(&[7]);
    assert_eq!(sorted(&a.join(&b)), sorted(&b.join(&a)));
    assert_eq!(sorted(&a.join(&b).join(&c)), sorted(&a.join(&b.join(&c))));
    assert_eq!(sorted(&a.join(&a)), sorted(&a));
    assert_eq!(sorted(&a.join(&a.meet(&b))), sorted(&a));
    assert_eq!(sorted(&a.meet(&a.join(&b))), sorted(&a));
}

#[test]
fn decimal_reading() {
    assert_eq!(parse_u64("42"), Some(42));
    assert_eq!(parse_u64("+7"), Some(7));
    assert_eq!(parse_u64("007"), Some(7));
    assert_eq!(parse_u64(""), None);
    assert_eq!(parse_u64("+"), None);
    assert_eq!(parse_u64("-1"), None);
    assert_eq!(parse_u64("12a"), None);
    assert_eq!(parse_u64(" 1"), None);
    assert_eq!(parse_u64("18446744073709551615"), Some(u64::MAX));
    assert_eq!(parse_u64("18446744073709551616"), None);
    assert_eq!(parse_u64("99999999999999999999x"), None);
    for s in ["0", "1", "+12", "x", "-0", "1.5", "٣"] {
        assert_eq!(parse_u64(s), s.parse::<u64>().ok(), "{}", s);
    }
}

#[test]
fn decimal_writing() {
    assert_eq!(render_u64(0), "0");
    assert_eq!(render_u64(10), "10");
    assert_eq!(render_u64(512), "512");
    assert_eq!(render_u64(u64::MAX), u64::MAX.to_string());
    for n in [0u64, 9, 10, 99, 100, 12345, u64::MAX - 1, u64::MAX] {
        assert_eq!(parse_u64(&render_u64(n)), Some(n));
    }
}

#[test]
fn str_map_insert_get_replace() {
    let mut m: StrMap<u64> = StrMap::new();
    assert_eq!(m.len(), 0);
    m.insert("a".to_string(), 1);
    m.insert("b".to_string(), 2);
    m.insert("a".to_string(), 3);
    assert_eq!(m.len(), 2);
    assert_eq!(m.get(&"a".to_string()), Some(&3));
    assert_eq!(m.get(&"b".to_string()), Some(&2));
    assert_eq!(m.get(&"c".to_string()), None);
    assert!(m.contains_key(&"b".to_string()));
    assert!(!m.contains_key(&"c".to_string()));
    assert_eq!(m.key_at(0), "a");
    assert_eq!(*m.value_at(0), 3);
}

#[test]
fn job_info_join_and_meet_are_fieldwise() {
    let a = job(1, &["batch"], 5, &[2]);
    let b = job(2, &["sim"], 3, &[2, 4]);
    let j = a.join(&b);
    assert_eq!(j.phase, 2);
    assert_eq!(j.priority, 5);
    assert_eq!(sorted(&j.resources), vec![2, 4]);
    assert_eq!(j.namespace_id.to_vec().len(), 2);
    let m = a.meet(&b);
    assert_eq!(m.phase, 1);
    assert_eq!(m.priority, 3);
    assert_eq!(sorted(&m.resources), vec![2]);
    assert!(m.namespace_id.is_empty());
    assert!(JobInfo::bot().is_bot());
    assert!(JobInfo::default().is_bot());
    assert!(!a.is_bot());
}

#[test]
fn job_info_partial_cmp_is_lexicographic() {
    let a = job(2, &[], 0, &[]);
    let b = job(1, &[], 5, &[]);
    // decided by the phase, though the priority goes the other way
    assert_eq!(a.partial_cmp(&b), Some(Ordering::Greater));
    assert_eq!(b.partial_cmp(&a), Some(Ordering::Less));
    assert!(a.at_least(&b));
    assert!(!a.at_most(&b));
    assert!(b.at_most(&a));
    let c = job(1, &["x"], 0, &[]);
    let d = job(1, &["y"], 9, &[]);
    assert_eq!(c.partial_cmp(&d), None);
    assert_eq!(c.partial_cmp(&c.clone()), Some(Ordering::Equal));
    let e = job(1, &["x"], 0, &[1]);
    assert_eq!(c.partial_cmp(&e), Some(Ordering::Less));
}

#[test]
fn job_info_below_in_join_order_is_not_greater() {
    let a = job(1, &["batch"], 2, &[4]);
    let b = job(3, &["batch", "x"], 2, &[4, 8]);
    assert!(same_job(&a.join(&b), &b));
    let o = a.partial_cmp(&b);
    assert!(o == Some(Ordering::Less) || o == Some(Ordering::Equal));
}

#[test]
fn node_info_lattice_and_order() {
    let a = NodeInfo { down: false, capacity: set_of(&[10]) };
    let b = NodeInfo { down: true, capacity: set_of(&[20]) };
    let j = a.join(&b);
    assert!(j.down);
    assert_eq!(sorted(&j.capacity), vec![10, 20]);
    let m = a.meet(&b);
    assert!(!m.down);
    assert!(m.capacity.is_empty());
    assert!(m.is_bot());
    assert_eq!(a.partial_cmp(&b), Some(Ordering::Less));
    assert_eq!(b.partial_cmp(&a), Some(Ordering::Greater));
    let c = NodeInfo { down: false, capacity: set_of(&[30]) };
    assert_eq!(a.partial_cmp(&c), None);
    assert!(NodeInfo::default().is_bot());
}

#[test]
fn facts_join_is_pointwise() {
    let a = facts_with_jobs(&[("j1", job(1, &[], 0, &[])), ("j2", job(2, &[], 0, &[]))]);
    let b = facts_with_jobs(&[("j2", job(3, &[], 7, &[])), ("j3", job(1, &[], 0, &[]))]);
    let j = a.join(&b);
    assert_eq!(job_ids(&j), vec!["j1", "j2", "j3"]);
    let j2 = j.jobs.get(&"j2".to_string()).unwrap();
    assert_eq!(j2.phase, 3);
    assert_eq!(j2.priority, 7);
    assert!(!j.is_bot());
    assert!(Facts::bot().is_bot());
    assert!(Facts::default().is_bot());
}

#[test]
fn facts_meet_leaves_out_least_states() {
    let a = facts_with_jobs(&[("j1", job(1, &[], 0, &[])), ("j2", job(2, &["n"], 0, &[]))]);
    let b = facts_with_jobs(&[("j2", job(3, &["n"], 0, &[]))]);
    let m = a.meet(&b);
    assert_eq!(job_ids(&m), vec!["j2"]);
    assert_eq!(m.jobs.get(&"j2".to_string()).unwrap().phase, 2);
    // a recorded least state disappears when a state meets itself
    let c = facts_with_jobs(&[("j0", JobInfo::bot())]);
    assert!(c.meet(&c).is_bot());
    assert!(!c.is_bot());
}

#[test]
fn facts_laws_on_values() {
    let a = facts_with_jobs(&[("j1", job(1, &["a"], 1, &[1]))]);
    let b = facts_with_jobs(&[("j1", job(2, &["b"], 0, &[])), ("j2", job(1, &[], 0, &[3]))]);
    let c = facts_with_jobs(&[("j3", job(4, &[], 0, &[]))]);
    assert_eq!(a.join(&b).partial_cmp(&b.join(&a)), Some(Ordering::Equal));
    assert_eq!(job_ids(&a.join(&b)), job_ids(&b.join(&a)));
    let l = a.join(&b).join(&c);
    let r = a.join(&b.join(&c));
    assert_eq!(job_ids(&l), job_ids(&r));
    assert_eq!(l.partial_cmp(&r), Some(Ordering::Equal));
    assert_eq!(job_ids(&a.join(&a)), job_ids(&a));
    assert_eq!(job_ids(&a.join(&a.meet(&b))), job_ids(&a));
    assert_eq!(job_ids(&Facts::bot().join(&b)), job_ids(&b));
    assert!(Facts::bot().meet(&b).is_bot());
}

#[test]
fn facts_partial_cmp() {
    let a = facts_with_jobs(&[("j1", job(1, &[], 0, &[]))]);
    let b = facts_with_jobs(&[("j1", job(2, &[], 0, &[]))]);
    assert_eq!(a.partial_cmp(&a), Some(Ordering::Equal));
    assert_eq!(a.partial_cmp(&b), Some(Ordering::Less));
    assert_eq!(b.partial_cmp(&a), Some(Ordering::Greater));
    // the least state lies below a state with a submitted job
    let empty = Facts::new();
    assert_eq!(empty.partial_cmp(&a), Some(Ordering::Less));
    assert_eq!(a.partial_cmp(&empty), Some(Ordering::Greater));
    assert_eq!(Facts::bot().partial_cmp(&Facts::bot()), Some(Ordering::Equal));
    // jobs with incomparable states make the states incomparable
    let x = facts_with_jobs(&[("j1", job(1, &["x"], 0, &[]))]);
    let y = facts_with_jobs(&[("j1", job(1, &["y"], 0, &[]))]);
    assert_eq!(x.partial_cmp(&y), None);
    assert_eq!(y.partial_cmp(&x), None);
    // an id that one side records with the least state compares Equal to a missing one
    let z = facts_with_jobs(&[("j0", JobInfo::bot())]);
    assert_eq!(z.partial_cmp(&empty), Some(Ordering::Equal));
    // one job higher, another lower: incomparable
    let p = facts_with_jobs(&[("j1", job(2, &[], 0, &[])), ("j2", job(1, &[], 0, &[]))]);
    let q = facts_with_jobs(&[("j1", job(1, &[], 0, &[])), ("j2", job(2, &[], 0, &[]))]);
    assert_eq!(p.partial_cmp(&q), None);
    let mut n1 = Facts::new();
    n1.nodes.insert("n".to_string(), NodeInfo { down: false, capacity: set_of(&[1]) });
    let mut n2 = Facts::new();
    n2.nodes.insert("n".to_string(), NodeInfo { down: true, capacity: set_of(&[1]) });
    assert_eq!(n1.partial_cmp(&n2), Some(Ordering::Less));
    assert_eq!(n2.partial_cmp(&n1), Some(Ordering::Greater));
    assert_eq!(empty.partial_cmp(&n1), Some(Ordering::Less));
}

#[test]
fn facts_order_is_dual_and_follows_join() {
    let states = vec![
        Facts::new(),
        facts_with_jobs(&[("j1", job(1, &[], 0, &[]))]),
        facts_with_jobs(&[("j1", job(2, &["a"], 1, &[3]))]),
        facts_with_jobs(&[("j1", job(1, &["b"], 0, &[])), ("j2", job(3, &[], 0, &[]))]),
    ];
    let flip = |o: Option<Ordering>| o.map(|x| x.reverse());
    for a in &states {
        for b in &states {
            assert_eq!(a.partial_cmp(b), flip(b.partial_cmp(a)));
            let j = a.join(b);
            let o = a.partial_cmp(&j);
            assert!(o == Some(Ordering::Less) || o == Some(Ordering::Equal));
            assert_eq!(a.partial_cmp(b) == Some(Ordering::Equal), a == b);
        }
    }
}

#[test]
fn equality_of_states() {
    assert!(set_of(&[1, 2]) == set_of(&[2, 1]));
    assert!(set_of(&[1]) != set_of(&[1, 2]));
    assert!(job(1, &["a"], 2, &[3]) == job(1, &["a"], 2, &[3]));
    assert!(job(1, &["a"], 2, &[3]) != job(1, &["a"], 2, &[4]));
    let a = NodeInfo { down: false, capacity: set_of(&[1]) };
    assert!(a == a.clone());
    assert!(a != NodeInfo { down: true, capacity: set_of(&[1]) });
    let f = facts_with_jobs(&[("j1", job(1, &[], 0, &[])), ("j2", job(2, &[], 0, &[]))]);
    let g = facts_with_jobs(&[("j2", job(2, &[], 0, &[])), ("j1", job(1, &[], 0, &[]))]);
    assert!(f == g);
    assert!(f == f.clone());
    assert!(f != facts_with_jobs(&[("j1", job(1, &[], 0, &[]))]));
    // a recorded least state is a different state for `==`, though it compares Equal
    let z = facts_with_jobs(&[("j0", JobInfo::bot())]);
    assert!(z != Facts::new());
    assert_eq!(z.partial_cmp(&Facts::new()), Some(Ordering::Equal));
}

#[test]
fn join_is_least_upper_bound_on_values() {
    let a = set_of(&[1]);
    let b = set_of(&[2]);
    let j = a.join(&b);
    // both lie below the join
    assert_eq!(sorted(&a.join(&j)), sorted(&j));
    assert_eq!(sorted(&b.join(&j)), sorted(&j));
    // and the join lies below any common upper bound
    let c = set_of(&[1, 2, 3]);
    assert_eq!(sorted(&j.join(&c)), sorted(&c));
    assert_eq!(j.partial_cmp(&c), Some(Ordering::Less));
    let x = job(1, &[], 4, &[]);
    let y = job(2, &[], 1, &[]);
    let u = job(2, &[], 4, &[]);
    assert!(same_job(&x.join(&y), &u));
    let bound = job(3, &["n"], 9, &[1]);
    assert!(same_job(&x.join(&y).join(&bound), &bound));
}

#[test]
fn meet_is_greatest_lower_bound_on_values() {
    let a = set_of(&[1, 2, 3]);
    let b = set_of(&[2, 3, 4]);
    let m = a.meet(&b);
    assert_eq!(sorted(&m.join(&a)), sorted(&a));
    assert_eq!(sorted(&m.join(&b)), sorted(&b));
    let c = set_of(&[3]);
    assert_eq!(sorted(&c.join(&m)), sorted(&m));
    let x = job(3, &["n"], 1, &[5]);
    let y = job(2, &["n", "o"], 4, &[5, 6]);
    let my = x.meet(&y);
    assert!(same_job(&my, &job(2, &["n"], 1, &[5])));
    let below = job(1, &[], 1, &[5]);
    assert!(same_job(&below.join(&my), &my));
    // id by id for whole states
    let f = facts_with_jobs(&[("j1", x.clone()), ("j2", job(1, &[], 0, &[]))]);
    let g = facts_with_jobs(&[("j1", y.clone())]);
    let fm = f.meet(&g);
    assert_eq!(job_ids(&fm), vec!["j1"]);
    assert!(same_job(fm.jobs.get(&"j1".to_string()).unwrap(), &my));
    assert!(fm <= f);
    assert!(fm <= g);
}

#[test]
fn comparison_operators() {
    assert!(set_of(&[1]) < set_of(&[1, 2]));
    assert!(set_of(&[1, 2]) > set_of(&[1]));
    assert!(set_of(&[1]) <= set_of(&[1]));
    assert!(!(set_of(&[1]) < set_of(&[2])) && !(set_of(&[1]) > set_of(&[2])));
    assert!(job(1, &[], 9, &[]) < job(2, &[], 0, &[]));
    assert!(NodeInfo { down: true, capacity: set_of(&[]) } > NodeInfo { down: false, capacity: set_of(&[7]) });
    let a = facts_with_jobs(&[("j1", job(1, &[], 0, &[]))]);
    assert!(Facts::bot() < a);
    assert!(a >= Facts::bot());
    assert!(a.clone() == a);
}
