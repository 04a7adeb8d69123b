use promptforge_cli::models::{select_model, ModelCatalog, ModelDescriptor, ModelRequest};

fn descriptor(name: &str) -> ModelDescriptor {
    ModelDescriptor {
        id: format!("gateway/{name}"),
        name: name.to_owned(),
        context: 4096,
    }
}

fn request(name: &str) -> ModelRequest {
    ModelRequest {
        name: name.to_owned(),
        id: format!("gateway/{name}"),
    }
}

fn catalog(names: &[&str]) -> ModelCatalog {
    ModelCatalog {
        models: names.iter().map(|name| descriptor(name)).collect(),
    }
}

#[test]
fn model_selection_defaults_to_the_first_catalog_entry() {
    let model = select_model(&catalog(&["first", "second"]), None).expect("selects");
    assert_eq!(model.name, "first");
}

#[test]
fn a_requested_model_must_be_in_the_catalog() {
    let model = select_model(&catalog(&["a", "b"]), Some(&request("b"))).expect("selects");
    assert_eq!(model.name, "b");

    let error = select_model(&catalog(&["a", "b"]), Some(&request("zzz"))).expect_err("absent");
    let text = error.to_string();
    assert!(text.contains("`zzz`"), "{text}");
    assert!(text.contains("available: a, b"), "{text}");
}

#[test]
fn an_empty_catalog_is_an_error() {
    assert!(select_model(&catalog(&[]), None).is_err());
}

#[test]
fn the_messages_about_models_are_exact() {
    assert_eq!(
        select_model(&catalog(&[]), None),
        Err("the gateway catalog lists no models".to_owned())
    );
    assert_eq!(
        select_model(&catalog(&["a", "b", "c"]), Some(&request("x"))),
        Err("model `x` is not in the gateway catalog; available: a, b, c".to_owned())
    );
    assert_eq!(
        select_model(&catalog(&[]), Some(&request("x"))),
        Err("model `x` is not in the gateway catalog; available: ".to_owned())
    );
}

#[test]
fn the_selected_model_keeps_its_context() {
    let mut models = catalog(&["a", "b"]);
    models.models[1].context = 7;
    let model = select_model(&models, Some(&request("b"))).expect("selects");
    assert_eq!(model.context, 7);
}

#[test]
fn a_model_is_found_by_its_id() {
    let mut models = catalog(&["a", "b", "b"]);
    models.models[1].id = "local/b".to_owned();
    models.models[1].context = 1;
    models.models[2].context = 2;
    let model = select_model(&models, Some(&request("b"))).expect("selects");
    assert_eq!((model.id.as_str(), model.context), ("gateway/b", 2));

    models.models.pop();
    assert_eq!(
        select_model(&models, Some(&request("b"))),
        Err("model `b` is not in the gateway catalog; available: a, b".to_owned())
    );
    assert!(models.get(&"local/b".to_owned()).is_some());
    assert!(models.get(&"b".to_owned()).is_none());
}
