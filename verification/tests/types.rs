//! Tests for the shared value types.

use agent_core::models::{HealthStatus, NodeData, NodeType, TreeNode};
use agent_core::types::{
    validate_email, validate_uuid, Color, FileSize, Language, MimeType, Range, Timestamp, Url,
};

#[test]
fn test_file_size() {
    let size = FileSize::megabytes(5);
    assert_eq!(size.as_bytes(), 5 * 1024 * 1024);
    assert!(size.human_readable().contains("MB"));
}

#[test]
fn test_file_size_rendering() {
    assert_eq!(FileSize::bytes(512).human_readable(), "512.0 B");
    assert_eq!(FileSize::kilobytes(1).human_readable(), "1.0 KB");
    assert_eq!(FileSize::bytes(1536).human_readable(), "1.5 KB");
    assert_eq!(FileSize::gigabytes(2).human_readable(), "2.0 GB");
}

#[test]
fn test_file_size_rounds_to_nearest() {
    // 1940000 / 1048576 = 1.850...: rounds to nearest, as "{:.1}" would.
    assert_eq!(FileSize::bytes(1940000).human_readable(), "1.9 MB");
    // Exact ties go to even, as "{:.1}" does: 1.25 -> 1.2, 1.75 -> 1.8.
    assert_eq!(FileSize::bytes(1280).human_readable(), "1.2 KB");
    assert_eq!(FileSize::bytes(1792).human_readable(), "1.8 KB");
}

#[test]
fn test_language() {
    let lang = Language::from_code("uk");
    assert_eq!(lang, Language::Ukrainian);
    assert_eq!(lang.code(), "uk");
}

#[test]
fn test_language_fallback_and_folding() {
    assert_eq!(Language::from_code("DE"), Language::German);
    assert_eq!(Language::from_code("fr"), Language::English);
    assert_eq!(Language::default(), Language::English);
}

#[test]
fn test_mime_type() {
    let mime = MimeType::new("image/jpeg".to_string());
    assert!(mime.is_image());
    assert!(mime.is_jpeg());
    assert_eq!(mime.extension(), Some("jpg"));
}

#[test]
fn test_mime_type_non_image() {
    let mime = MimeType::new("application/pdf".to_string());
    assert!(!mime.is_image());
    assert!(!mime.is_png());
    assert_eq!(mime.extension(), None);
    assert_eq!(mime.as_str(), "application/pdf");
}

#[test]
fn test_color() {
    let color = Color::rgb(255, 0, 0);
    assert_eq!(color.to_hex(), "#ff0000");
}

#[test]
fn test_color_rgba_rendering() {
    assert_eq!(Color::rgb(255, 0, 0).to_rgba(), "rgba(255, 0, 0, 1)");
    assert_eq!(Color::rgba(1, 2, 3, 0).to_rgba(), "rgba(1, 2, 3, 0)");
    assert_eq!(Color::rgba(16, 32, 160, 128).to_rgba(), "rgba(16, 32, 160, 0.501)");
    assert_eq!(Color::rgba(16, 32, 160, 128).to_hex(), "#1020a0");
}

#[test]
fn test_url_validation() {
    assert!(Url::is_valid("https://example.com"));
    assert!(!Url::is_valid("not-a-url"));
}

#[test]
fn test_url_domain() {
    let url = Url::new("https://example.com/a/b".to_string()).unwrap();
    assert_eq!(url.domain(), Some("example.com".to_string()));
    assert_eq!(url.as_str(), "https://example.com/a/b");

    let bare = Url::new("http://host".to_string()).unwrap();
    assert_eq!(bare.domain(), Some("host".to_string()));

    assert!(Url::new("ftp://example.com".to_string()).is_err());
}

#[test]
fn test_range() {
    let range = Range::new(0, 100).unwrap();
    assert!(range.contains(&50));
    assert!(!range.contains(&150));
}

#[test]
fn test_range_rejects_bad_bounds() {
    assert!(Range::new(10, 1).is_err());
    let point = Range::new(5, 5).unwrap();
    assert!(point.contains(&5));
    assert!(!point.contains(&4));
}

#[test]
fn test_email_validation() {
    assert!(validate_email("a@b.com"));
    assert!(!validate_email("a@bcom"));
    assert!(!validate_email("ab.com"));
}

#[test]
fn test_uuid_validation() {
    assert!(validate_uuid("67e55044-10b1-426f-9247-bb680e5fe0c8"));
    assert!(!validate_uuid("not-a-uuid"));
}

#[test]
fn test_timestamp() {
    let ts = Timestamp::from_string("2024-01-01T00:00:00Z".to_string());
    assert_eq!(ts.as_str(), "2024-01-01T00:00:00Z");
    assert_eq!(ts.format_relative(), "just now");
}

#[test]
fn test_health_status() {
    let health = HealthStatus::healthy();
    assert_eq!(health.status, "healthy");
    assert!(health.is_healthy());

    let mut degraded = HealthStatus::healthy();
    degraded.services.redis = false;
    assert!(!degraded.is_healthy());
}

#[test]
fn test_tree_node_depth() {
    let leaf = TreeNode {
        id: uuid::Uuid::now_v7(),
        parent_id: None,
        node_type: NodeType::ImageLeaf,
        data: NodeData::Image {
            url: "test.jpg".to_string(),
            storage_path: None,
            size: None,
            mime_type: None,
            hash: None,
            description: None,
        },
        children: vec![],
        created_at: "2024-01-01T00:00:00Z".to_string(),
    };

    assert_eq!(leaf.depth(), 0);
    assert!(leaf.is_leaf());
}

#[test]
fn test_tree_walks() {
    let leaf_id = uuid::Uuid::now_v7();
    let leaf = TreeNode {
        id: leaf_id,
        parent_id: None,
        node_type: NodeType::ImageLeaf,
        data: NodeData::Image {
            url: "a.jpg".to_string(),
            storage_path: None,
            size: None,
            mime_type: None,
            hash: None,
            description: None,
        },
        children: vec![],
        created_at: "2024-01-01T00:00:00Z".to_string(),
    };
    let root = TreeNode {
        id: uuid::Uuid::now_v7(),
        parent_id: None,
        node_type: NodeType::Root,
        data: NodeData::Root { title: "t".to_string() },
        children: vec![leaf],
        created_at: "2024-01-01T00:00:00Z".to_string(),
    };

    assert_eq!(root.depth(), 1);
    assert_eq!(root.count_nodes(), 2);
    assert!(root.has_children());
    assert!(root.find_node(&leaf_id).is_some());
    assert!(root.find_node(&uuid::Uuid::now_v7()).is_none());
    let leaves = root.collect_leaves();
    assert_eq!(leaves.len(), 1);
    assert_eq!(leaves[0].id, leaf_id);
}
