use std::cmp::Ordering;
use xiaomi_debloater::model::{InstalledBloat, PackageEntry, Risk};
use xiaomi_debloater::sort::sort_entries;

fn entry(id: &str, category: &str, risk: Risk) -> InstalledBloat {
    InstalledBloat {
        meta: PackageEntry {
            id: id.to_string(),
            category: category.to_string(),
            description: format!("{id} description"),
            risk,
        },
        selected: false,
    }
}

#[test]
fn risk_sort_keys() {
    assert_eq!(Risk::Safe.sort_key(), 0);
    assert_eq!(Risk::Caution.sort_key(), 1);
    assert_eq!(Risk::Advanced.sort_key(), 2);
}

#[test]
fn compare_by_risk_then_category_then_id() {
    let a = entry("z.pkg", "Zeta", Risk::Safe);
    let b = entry("a.pkg", "Alpha", Risk::Caution);
    assert_eq!(a.compare(&b), Ordering::Less);
    assert_eq!(b.compare(&a), Ordering::Greater);
    let c = entry("b.pkg", "alpha", Risk::Caution);
    assert_eq!(b.compare(&c), Ordering::Less);
    let d = entry("a.pkg", "ALPHA", Risk::Caution);
    assert_eq!(b.compare(&d), Ordering::Equal);
    assert_eq!(b.partial_cmp(&c), Some(Ordering::Less));
}

#[test]
fn category_order_ignores_case() {
    // "ads" < "Browser" only when case is ignored: 'B' < 'a' in code points.
    let a = entry("x", "ads", Risk::Safe);
    let b = entry("y", "Browser", Risk::Safe);
    assert_eq!(a.compare(&b), Ordering::Less);
}

#[test]
fn equality_is_by_id() {
    let a = entry("com.a", "One", Risk::Safe);
    let mut b = entry("com.a", "Two", Risk::Advanced);
    b.selected = true;
    assert!(a == b);
    assert!(a != entry("com.b", "One", Risk::Safe));
}

#[test]
fn sorting_orders_and_keeps_everything() {
    let items = vec![
        entry("com.c", "Tools", Risk::Advanced),
        entry("com.b", "ads", Risk::Caution),
        entry("com.a", "Tools", Risk::Safe),
        entry("com.d", "Ads", Risk::Caution),
        entry("com.b", "Ads", Risk::Caution),
    ];
    let sorted = sort_entries(items);
    let ids: Vec<(&str, &str)> =
        sorted.iter().map(|b| (b.meta.id.as_str(), b.meta.category.as_str())).collect();
    // Equal keys ("com.b" with "ads" and "Ads") keep their order.
    assert_eq!(
        ids,
        vec![("com.a", "Tools"), ("com.b", "ads"), ("com.b", "Ads"), ("com.d", "Ads"), ("com.c", "Tools")]
    );
}

#[test]
fn sorting_empty() {
    assert!(sort_entries(Vec::new()).is_empty());
}
