use promptforge_cli::requirements::{
    render_requirements, Conflict, RequirementCheck, Requirements, UnmetRequirement,
};

#[test]
fn an_unsatisfied_report_renders_every_gap() {
    let satisfied = Requirements::default();
    assert!(satisfied.is_satisfied());
    let text = render_requirements(&satisfied);
    assert_eq!(text, "the environment cannot satisfy this prompt:");
}

fn unmet(check: RequirementCheck, required: &str, actual: &str) -> UnmetRequirement {
    UnmetRequirement {
        role: "author".to_owned(),
        check,
        required: required.to_owned(),
        actual: actual.to_owned(),
    }
}

#[test]
fn each_gap_has_a_line_of_its_own() {
    let requirements = Requirements {
        satisfied: false,
        missing_required: vec!["acme/disk".to_owned(), "acme/tape".to_owned()],
        conflicts: vec![Conflict {
            first: "a/x".to_owned(),
            second: "a/y".to_owned(),
        }],
        unmet_requirements: vec![
            unmet(RequirementCheck::ContextMinimum, "9000", "4096"),
            unmet(RequirementCheck::HardKeyword, "thinking", "never"),
            unmet(RequirementCheck::Other, "speed", "none"),
        ],
    };
    assert!(!requirements.is_satisfied());
    assert_eq!(
        render_requirements(&requirements),
        "the environment cannot satisfy this prompt:\
         \n- missing required capability: acme/disk\
         \n- missing required capability: acme/tape\
         \n- conflicting capabilities: a/x and a/y cannot be activated together; \
         declare one or the other\
         \n- role 'author': requires a context of at least 9000 tokens; \
         the current model provides 4096\
         \n- role 'author': requires 'thinking'; \
         the current model's thinking capability is never\
         \n- role 'author': requires speed; the current model provides none"
    );
}
