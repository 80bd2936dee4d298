use pdf_ui::model::PagePreview;
use pdf_ui::raster::page_raster;

#[test]
fn rasters_become_images_when_their_bytes_cover_the_size() {
    let preview = PagePreview { width: 2, height: 1, rgba: vec![1, 2, 3, 4, 5, 6, 7, 8] };
    let raster = page_raster(preview).expect("two pixels fit in eight bytes");
    assert_eq!(raster.image.into_raw(), vec![3, 2, 1, 4, 7, 6, 5, 8]);
    let short = PagePreview { width: 2, height: 2, rgba: vec![0; 15] };
    assert!(page_raster(short).is_none());
    let extra = PagePreview { width: 1, height: 1, rgba: vec![0; 9] };
    assert!(page_raster(extra).is_some());
}
