use jobhunting::profile::{
    expand_wikilinks, extract_name_title, is_safe_profile_path, list_profile_files, master_cv,
    parse_frontmatter, profile_print_body, strip_frontmatter, ProfileFile,
};
use jobhunting::views::escape_markup;
use jobhunting::wiki_graph::WikiGraph;

#[test]
fn extract_name_title_happy_path() {
    let content = "---\nname: \"Farrel Ilham Shaputra\"\ntitle: \"Software Engineer — Backend & Infrastructure\"\n---\n\nBody here";
    let (name, title) = extract_name_title(content);
    assert_eq!(name, "Farrel Ilham Shaputra");
    assert_eq!(title, "Software Engineer — Backend & Infrastructure");
}

#[test]
fn extract_name_title_no_frontmatter() {
    let content = "# Just body\nno frontmatter here";
    let (name, title) = extract_name_title(content);
    assert_eq!(name, "");
    assert_eq!(title, "");
}

#[test]
fn extract_name_title_empty_frontmatter() {
    let content = "---\n---\nbody";
    let (name, title) = extract_name_title(content);
    assert_eq!(name, "");
    assert_eq!(title, "");
}

fn profile_entries() -> Vec<ProfileFile> {
    vec![
        ProfileFile { path: "portfolio.md".to_string(), name: "portfolio".to_string() },
        ProfileFile { path: "index.md".to_string(), name: "index".to_string() },
    ]
}

#[test]
fn list_profile_files_includes_index_md() {
    let files = list_profile_files(profile_entries());
    assert!(files.iter().any(|f| f.path == "index.md"), "should include profile/index.md");
}

#[test]
fn list_profile_files_sorted_by_path() {
    let files = list_profile_files(profile_entries());
    let paths: Vec<&str> = files.iter().map(|f| f.path.as_str()).collect();
    assert_eq!(paths, vec!["index.md", "portfolio.md"]);
}

#[test]
fn strip_frontmatter_removes_delimiters() {
    let content = "---\nname: test\n---\nBody here";
    assert_eq!(strip_frontmatter(content), "Body here");
}

#[test]
fn strip_frontmatter_no_frontmatter() {
    let content = "Just body";
    assert_eq!(strip_frontmatter(content), "Just body");
}

#[test]
fn expand_wikilinks_label() {
    assert_eq!(expand_wikilinks("[[target|display text]]"), "display text");
}

#[test]
fn expand_wikilinks_no_label() {
    assert_eq!(expand_wikilinks("[[target]]"), "target");
}

#[test]
fn expand_wikilinks_strips_images() {
    assert_eq!(expand_wikilinks("![[portfolio/api-gateway.svg]]"), "");
}

#[test]
fn expand_wikilinks_mixed() {
    let input = "See [[portfolio#jobhunting|JobHunting]] and ![[img.svg]] here.";
    assert_eq!(expand_wikilinks(input), "See JobHunting and  here.");
}

#[test]
fn extract_wikilinks_basic() {
    let links = WikiGraph::extract_wikilinks("See [[Rust]] and [[Docker|containers]]");
    assert_eq!(links, vec!["Rust", "Docker"]);
}

#[test]
fn extract_wikilinks_skips_images() {
    let links = WikiGraph::extract_wikilinks("![[portfolio/img.svg]] and [[Rust]]");
    assert_eq!(links, vec!["Rust"]);
}

#[test]
fn extract_wikilinks_empty() {
    let links = WikiGraph::extract_wikilinks("no links here");
    assert!(links.is_empty());
}

#[test]
fn parse_frontmatter_reads_quoted_values_and_lists() {
    let content = "---\nname: 'Ada'\nskills:\n  - Rust\n  - Go\n---\nbody";
    let map = parse_frontmatter(content);
    let get = |k: &str| map.iter().find(|(a, _)| a == k).map(|(_, v)| v.clone());
    assert_eq!(get("name"), Some("Ada".to_string()));
    assert_eq!(get("skills"), Some("Rust\nGo".to_string()));
}

#[test]
fn profile_path_rejects_parent_dirs() {
    assert!(is_safe_profile_path("index.md"));
    assert!(!is_safe_profile_path("../secret.md"));
}

#[test]
fn master_cv_appends_portfolio_body_and_expands_links() {
    let cv = master_cv(Some("CV [[Rust]]"), Some("---\nx: y\n---\nPortfolio [[A|B]]"));
    assert_eq!(cv, "CV Rust\n\n# Portfolio\n\nPortfolio B");
    assert_eq!(master_cv(None, None), "");
}

#[test]
fn plain_text_passes_through_expansion() {
    let plain = "No links here! Just (brackets) and ] closers.";
    assert_eq!(expand_wikilinks(plain), plain);
}

#[test]
fn print_body_follows_links_in_list_order() {
    let files = vec![
        ("index.md".to_string(), Some("---\nname: X\n---\nSee [[portfolio|my work]].".to_string())),
        ("notes.md".to_string(), Some("unlinked".to_string())),
        ("portfolio.md".to_string(), Some("---\ntitle: P\n---\nBuilt [[tools]] things.".to_string())),
        ("tools.md".to_string(), None),
    ];
    let body = profile_print_body("index.md", "---\nname: X\n---\nSee [[portfolio|my work]].", &files);
    assert_eq!(body, "See [[portfolio|my work]].\n\nBuilt [[tools]] things.");
    let plain = profile_print_body("a.md", "no front", &files);
    assert_eq!(plain, "no front");
}

#[test]
fn markup_escapes_three_characters() {
    assert_eq!(escape_markup("a<b>&c"), "a&lt;b&gt;&amp;c");
}

#[test]
fn text_without_double_brackets_is_unchanged() {
    let t = "a [b] ![c] [x and ![";
    assert_eq!(expand_wikilinks(t), t);
}
