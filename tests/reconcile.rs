use databench_rs::reconcile::reconcile;

fn v(items: &[&str]) -> Vec<String> {
    items.iter().map(|s| s.to_string()).collect()
}

#[test]
fn reconcile_reports_delivered_lost_and_stray() {
    let r = reconcile(&v(&["a", "b", "c"]), &v(&["b", "c", "d"]));
    assert_eq!(r.delivered, v(&["b", "c"]));
    assert_eq!(r.lost, v(&["a"]));
    assert_eq!(r.stray, v(&["d"]));
    assert_eq!(r.delivered_count(), 2);
    assert_eq!(r.lost_count(), 1);
    assert_eq!(r.stray_count(), 1);
    assert_eq!(r.delivered_percent(), 66);
}

#[test]
fn reconcile_counts_duplicates_once() {
    let r = reconcile(&v(&["a", "a", "b"]), &v(&["b", "b", "x", "x"]));
    assert_eq!(r.delivered, v(&["b"]));
    assert_eq!(r.lost, v(&["a"]));
    assert_eq!(r.stray, v(&["x"]));
    assert_eq!(r.delivered_percent(), 50);
}

#[test]
fn reconcile_empty_and_complete() {
    let r = reconcile(&Vec::new(), &Vec::new());
    assert_eq!(r.delivered_count() + r.lost_count() + r.stray_count(), 0);
    assert_eq!(r.delivered_percent(), 0);
    let r = reconcile(&v(&["p", "q"]), &v(&["q", "p"]));
    assert_eq!(r.delivered_count(), 2);
    assert_eq!(r.lost_count(), 0);
    assert_eq!(r.delivered_percent(), 100);
    let r = reconcile(&v(&["p", "q"]), &Vec::new());
    assert_eq!(r.lost, v(&["p", "q"]));
    assert_eq!(r.delivered_percent(), 0);
}

#[test]
fn reconcile_many_hashes() {
    let sent: Vec<String> = (0..5000).map(|i| format!("{:064x}", i)).collect();
    let received: Vec<String> = (2500..7500).map(|i| format!("{:064x}", i)).collect();
    let r = reconcile(&sent, &received);
    assert_eq!(r.delivered_count(), 2500);
    assert_eq!(r.lost_count(), 2500);
    assert_eq!(r.stray_count(), 2500);
    assert_eq!(r.delivered_count() + r.lost_count(), sent.len());
}
