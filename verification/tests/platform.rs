use smart_file_organizer::clock::Timestamp;
use smart_file_organizer::model::{ClassificationResult, FileCategory, FileItem, FileRiskLevel};
use smart_file_organizer::platform::{
    build_desktop_preview, default_sensitive_paths, desktop_archive_folder,
    desktop_capabilities, is_sensitive_path, DesktopPreviewPlatform,
};

#[test]
fn detects_sensitive_suffixes() {
    assert!(is_sensitive_path("/Users/me/.ssh"));
    assert!(is_sensitive_path("/Users/me/Library/Keychains"));
    assert!(!is_sensitive_path("/Users/me/Desktop"));
}

#[test]
fn sensitive_paths_under_home_and_normalization() {
    let paths = default_sensitive_paths("/Users/me");
    assert_eq!(paths.len(), 9);
    assert_eq!(paths[0], "/Users/me/.ssh");
    assert_eq!(paths[8], "/Users/me/AppData/Local/Google/Chrome/User Data");
    assert!(is_sensitive_path("/Users//me/Library/Keychains/"));
    assert!(is_sensitive_path("C:/Users/me/AppData/Roaming/1Password"));
}

#[test]
fn desktop_capabilities_do_not_allow_coordinate_writeback() {
    let macos = desktop_capabilities(DesktopPreviewPlatform::Macos);
    assert!(macos.preview_only);
    assert!(macos.supports_file_archive_plan);
    assert!(!macos.supports_desktop_canvas_preview);
    assert!(!macos.supports_icon_coordinate_writeback);
    assert!(!macos.supports_pixel_perfect_layout);

    let windows = desktop_capabilities(DesktopPreviewPlatform::Windows);
    assert!(windows.preview_only);
    assert!(windows.supports_desktop_canvas_preview);
    assert!(!windows.supports_icon_coordinate_writeback);
    assert!(!windows.supports_pixel_perfect_layout);
}

fn classified_file(root: &str, name: &str, category: FileCategory, size_bytes: u64) -> ClassificationResult {
    let at = Timestamp { seconds: 0, nanos: 0 };
    ClassificationResult {
        file: FileItem {
            id: size_bytes as u128,
            root: root.to_string(),
            path: format!("{root}/{name}"),
            relative_path: name.to_string(),
            file_name: name.to_string(),
            extension: std::path::Path::new(name)
                .extension()
                .map(|extension| extension.to_string_lossy().into_owned()),
            size_bytes,
            created_at: None,
            modified_at: None,
            accessed_at: None,
            is_hidden: false,
            is_symlink: false,
            mime_type: None,
            path_hash: format!("hash-{name}"),
            indexed_at: at,
        },
        category,
        confidence: 90,
        evidence: Vec::new(),
        risk: FileRiskLevel::Low,
    }
}

#[test]
fn desktop_preview_groups_files_into_before_groups_and_after_zones() {
    let root = "/tmp/Desktop";
    let preview = build_desktop_preview(
        DesktopPreviewPlatform::Windows,
        root,
        &vec![
            classified_file(root, "a.pdf", FileCategory::Pdf, 10),
            classified_file(root, "b.pdf", FileCategory::Pdf, 20),
            classified_file(root, "photo.jpg", FileCategory::Images, 30),
        ],
    );

    assert_eq!(preview.before_groups.len(), 2);
    let pdf_group = preview
        .before_groups
        .iter()
        .find(|group| group.category_key == "pdf")
        .unwrap();
    assert_eq!(pdf_group.file_count, 2);
    assert_eq!(pdf_group.total_size_bytes, 30);

    assert_eq!(preview.after_zones.len(), 2);
    assert!(preview
        .after_zones
        .iter()
        .all(|zone| zone.archive_folder.contains("Desktop Archive")));
    assert!(preview
        .after_zones
        .iter()
        .all(|zone| zone.canvas_rect.width > 0 && zone.canvas_rect.height > 0));
}

#[test]
fn zones_fill_canvas_cells_in_order() {
    let root = "/tmp/Desktop";
    let preview = build_desktop_preview(
        DesktopPreviewPlatform::Macos,
        root,
        &vec![
            classified_file(root, "a.pdf", FileCategory::Pdf, 1),
            classified_file(root, "b.png", FileCategory::Images, 2),
            classified_file(root, "c.zip", FileCategory::Archives, 3),
            classified_file(root, "d.mp3", FileCategory::Audio, 4),
        ],
    );
    let rects: Vec<(u32, u32, u32, u32)> = preview
        .after_zones
        .iter()
        .map(|z| (z.canvas_rect.x, z.canvas_rect.y, z.canvas_rect.width, z.canvas_rect.height))
        .collect();
    assert_eq!(rects, vec![(0, 0, 333, 320), (333, 0, 333, 320), (666, 0, 333, 320), (0, 320, 333, 320)]);
    assert_eq!(preview.after_zones[0].zone_id, "zone-pdf");
    assert_eq!(preview.after_zones[0].archive_folder, "/tmp/Desktop/Desktop Archive/PDF");
    assert_eq!(preview.before_groups[1].group_id, "before-images");
    assert_eq!(desktop_archive_folder("/tmp/x/", &FileCategory::Code), "/tmp/x/Desktop Archive/Code");
}

#[test]
fn default_sensitive_paths_are_all_sensitive() {
    for home in ["/Users/me", "/Users/me/", "", "relative/home"] {
        for path in default_sensitive_paths(home) {
            assert!(is_sensitive_path(&path), "{path}");
        }
    }
}
