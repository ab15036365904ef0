use chizu::model::entity::{Entity, EntityKind};
use chizu::scan::{deploy_targets, extract_image_from_line, parse_frontmatter_title, scan_terraform};

#[test]
fn parse_toml_frontmatter_title() {
    let content = "+++\ntitle = \"My Post\"\ndate = 2024-01-01\n+++\n\nBody here.";
    assert_eq!(parse_frontmatter_title(content), Some("My Post".to_string()));
}

#[test]
fn parse_yaml_frontmatter_title() {
    let content = "---\ntitle: \"Hello World\"\ndate: 2024-01-01\n---\n\nBody here.";
    assert_eq!(parse_frontmatter_title(content), Some("Hello World".to_string()));
}

#[test]
fn parse_yaml_frontmatter_unquoted_title() {
    let content = "---\ntitle: Hello World\ndate: 2024-01-01\n---\n\nBody.";
    assert_eq!(parse_frontmatter_title(content), Some("Hello World".to_string()));
}

#[test]
fn parse_frontmatter_no_frontmatter() {
    assert_eq!(parse_frontmatter_title("Just plain text"), None);
}

#[test]
fn parse_frontmatter_no_title() {
    let content = "+++\ndate = 2024-01-01\n+++\n\nBody.";
    assert_eq!(parse_frontmatter_title(content), None);
}

#[test]
fn frontmatter_edge_cases() {
    // no closing fence
    assert_eq!(parse_frontmatter_title("+++\ntitle = \"x\"\n"), None);
    // the first title line decides, even without its separator
    assert_eq!(parse_frontmatter_title("---\ntitle_x = 1\ntitle: Y\n---\n"), None);
    // surrounding white space and quotes are removed
    assert_eq!(parse_frontmatter_title("+++\r\n  title   =   \"\"Spaced\"\"  \r\n+++"), Some("Spaced".to_string()));
}

#[test]
fn image_lines() {
    assert_eq!(extract_image_from_line("image = \"myapp:latest\""), Some("myapp:latest".to_string()));
    assert_eq!(extract_image_from_line("container_image=\"repo/api:1\""), Some("repo/api:1".to_string()));
    assert_eq!(extract_image_from_line("image_uri = \"${var.x}\""), None);
    assert_eq!(extract_image_from_line("image = \"var.image\""), None);
    assert_eq!(extract_image_from_line("image = \"\""), None);
    assert_eq!(extract_image_from_line("name = \"api\""), None);
    assert_eq!(extract_image_from_line("image = latest"), None);
}

#[test]
fn terraform_scan_finds_resources_and_images() {
    let tf = "resource \"aws_ecs_service\" \"api\" {\n  image = \"api:latest\"\n}\n  resource \"aws_s3_bucket\" \"data\" {}\n";
    let scan = scan_terraform(tf);
    assert_eq!(scan.resources.len(), 2);
    assert_eq!(scan.resources[0].resource_type, "aws_ecs_service");
    assert_eq!(scan.resources[0].name, "api");
    assert_eq!(scan.resources[1].resource_type, "aws_s3_bucket");
    assert_eq!(scan.resources[1].name, "data");
    assert_eq!(scan.images.len(), 1);
    assert_eq!(scan.images[0].image, "api:latest");
    assert_eq!(scan.images[0].line, 2);
}

fn container(id: &str, path: &str) -> Entity {
    Entity {
        id: id.to_string(),
        kind: EntityKind::Containerized,
        name: "Dockerfile".to_string(),
        component_id: None,
        path: Some(path.to_string()),
        language: Some("dockerfile".to_string()),
        line_start: None,
        line_end: None,
        visibility: Some("pub".to_string()),
        exported: true,
    }
}

#[test]
fn deploys_match_by_directory_and_compose() {
    let mut sym = container("symbol::x", "myapp/Dockerfile");
    sym.kind = EntityKind::Symbol;
    let entities = vec![
        sym,
        container("c1", "other/Dockerfile"),
        container("c2", "myapp/Dockerfile"),
        container("c3", "docker-compose.yml"),
    ];
    let images = vec![
        "registry.io/myapp:latest".to_string(),
        "nothing:1".to_string(),
        "compose-stack".to_string(),
    ];
    assert_eq!(deploy_targets(&images, &entities), vec![(0, 2), (2, 3)]);
}
