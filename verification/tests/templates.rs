use oxify::templates::{
    get_builtin_templates, get_template, list_templates, template_categories, template_not_found_message,
    TemplateListQuery,
};

fn q() -> TemplateListQuery {
    TemplateListQuery { category: None, tag: None, search: None, limit: None, offset: None }
}

#[test]
fn templates_builtin_listing() {
    let all = get_builtin_templates();
    assert!(!all.is_empty());
    let listed = list_templates(all.clone(), &q());
    assert_eq!(listed.len(), all.len().min(50));
    for t in &all {
        assert_eq!(t.version, "1.0.0");
        assert!(t.is_public);
    }
}

#[test]
fn templates_paging_and_filters() {
    let all = get_builtin_templates();
    let mut page = q();
    page.offset = Some(1);
    page.limit = Some(1);
    let listed = list_templates(all.clone(), &page);
    assert_eq!(listed.len(), 1);
    assert_eq!(listed[0].id, all[1].id);
    let cat = all[0].category.clone().unwrap();
    let mut by_cat = q();
    by_cat.category = Some(cat.clone());
    for t in list_templates(all.clone(), &by_cat) {
        assert_eq!(t.category.as_deref(), Some(cat.as_str()));
    }
    let mut none = q();
    none.search = Some("zzzz-no-such-template".to_string());
    assert!(list_templates(all, &none).is_empty());
}

#[test]
fn templates_lookup() {
    let all = get_builtin_templates();
    let d = get_template(&all[0].id).unwrap();
    assert_eq!(d.id, all[0].id);
    assert_eq!(d.name, all[0].name);
    assert!(get_template("no-such-template").is_none());
    assert_eq!(template_not_found_message("x"), "Template 'x' not found");
}

#[test]
fn templates_categories_counted() {
    let all = get_builtin_templates();
    let cats = template_categories(&all);
    let mut total = 0;
    for c in &cats {
        let n = all.iter().filter(|t| t.category.as_deref() == Some(c.name.as_str())).count();
        assert_eq!(c.count, n);
        total += c.count;
    }
    assert_eq!(total, all.iter().filter(|t| t.category.is_some()).count());
    let rag = cats.iter().find(|c| c.name == "RAG").unwrap();
    assert_eq!(rag.description.as_deref(), Some("Retrieval-Augmented Generation pipelines"));
}
