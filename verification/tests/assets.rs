use pdf_ui::assets::{Assets, HugeIcon};

#[test]
fn icons_are_found_in_the_asset_table() {
    let assets = Assets;
    assert_eq!(assets.asset_index("hugeicons/select.svg"), Some(0));
    assert_eq!(assets.asset_index("hugeicons/fit.svg"), Some(21));
    assert_eq!(assets.asset_index(HugeIcon::ZoomIn.path()), Some(19));
    assert_eq!(assets.asset_index("hugeicons/missing.svg"), None);
}

#[test]
fn listing_filters_by_prefix() {
    let assets = Assets;
    assert_eq!(assets.list("hugeicons/").len(), 22);
    assert_eq!(
        assets.list("hugeicons/zoom"),
        vec!["hugeicons/zoom-in.svg".to_owned(), "hugeicons/zoom-out.svg".to_owned()]
    );
    assert!(assets.list("fonts/").is_empty());
}
