use tf_doom::command::{
    base_command, forwarded_by_name, name_le_text, slot_of, Docker, TF_PREFIX,
};
use tf_doom::options::{Opt, PORT};

fn var(name: &str, value: &str) -> (String, String) {
    (name.to_string(), value.to_string())
}

fn opt(chdir: Option<&str>, port: Option<usize>) -> Opt {
    Opt { chdir: chdir.map(|d| d.to_string()), port }
}

#[test]
fn chdir_defaults_to_current_directory() {
    assert_eq!(opt(None, None).chdir(), ".");
}

#[test]
fn chdir_is_the_one_given() {
    assert_eq!(opt(Some("/infra"), None).chdir(), "/infra");
    assert_eq!(opt(Some(""), None).chdir(), "");
}

#[test]
fn port_defaults_to_5900() {
    assert_eq!(PORT, 5900);
    assert_eq!(opt(None, None).port(), 5900);
}

#[test]
fn port_is_the_one_given() {
    assert_eq!(opt(None, Some(5901)).port(), 5901);
    assert_eq!(opt(None, Some(0)).port(), 0);
}

#[test]
fn prefix_is_tf() {
    assert_eq!(TF_PREFIX, "TF_");
}

#[test]
fn base_command_with_one_variable() {
    let vars = vec![var("TF_VAR_region", "us-east-1")];
    let base = base_command(&opt(Some("/infra"), None), &vars);
    assert_eq!(base, "TF_VAR_region=us-east-1 terraform -chdir=/infra");
}

#[test]
fn base_command_without_variables() {
    let base = base_command(&opt(Some("/infra"), None), &Vec::new());
    assert_eq!(base, "terraform -chdir=/infra");
}

#[test]
fn base_command_without_directory() {
    let base = base_command(&opt(None, None), &Vec::new());
    assert_eq!(base, "terraform -chdir=.");
}

#[test]
fn base_command_leaves_other_variables_out() {
    let vars = vec![
        var("HOME", "/root"),
        var("TF_LOG", "debug"),
        var("tf_lower", "x"),
        var("TF", "short"),
        var("XTF_", "y"),
    ];
    let base = base_command(&opt(None, None), &vars);
    assert_eq!(base, "TF_LOG=debug terraform -chdir=.");
}

#[test]
fn base_command_sorts_variables_by_name() {
    let vars = vec![
        var("TF_VAR_zone", "b"),
        var("PATH", "/bin"),
        var("TF_LOG", "debug"),
        var("TF_VAR_region", "us-east-1"),
    ];
    let base = base_command(&opt(Some("/infra"), None), &vars);
    assert_eq!(
        base,
        "TF_LOG=debug TF_VAR_region=us-east-1 TF_VAR_zone=b terraform -chdir=/infra"
    );
}

#[test]
fn base_command_is_the_same_in_any_order() {
    let one = vec![var("TF_A", "1"), var("TF_B", "2"), var("TF_C", "3")];
    let other = vec![var("TF_C", "3"), var("TF_A", "1"), var("TF_B", "2")];
    let args = opt(None, None);
    assert_eq!(base_command(&args, &one), base_command(&args, &other));
    assert_eq!(base_command(&args, &one), "TF_A=1 TF_B=2 TF_C=3 terraform -chdir=.");
}

#[test]
fn base_command_holds_every_forwarded_pair() {
    let vars = vec![var("TF_B", "two"), var("OTHER", "no"), var("TF_A", "one")];
    let base = base_command(&opt(Some("dir"), None), &vars);
    assert!(base.contains("TF_A=one"));
    assert!(base.contains("TF_B=two"));
    assert!(!base.contains("OTHER"));
    assert_eq!(base.matches("-chdir=").count(), 1);
}

#[test]
fn another_directory_changes_the_flag_only() {
    let vars = vec![var("TF_VAR_region", "us-east-1")];
    let one = base_command(&opt(Some("/infra"), None), &vars);
    let other = base_command(&opt(Some("/elsewhere"), None), &vars);
    assert_eq!(one.strip_suffix("/infra"), other.strip_suffix("/elsewhere"));
    assert_eq!(one.strip_suffix("/infra"), Some("TF_VAR_region=us-east-1 terraform -chdir="));
}

#[test]
fn variables_of_one_name_keep_their_order() {
    let vars = vec![var("TF_X", "first"), var("TF_A", "a"), var("TF_X", "second")];
    let kept = forwarded_by_name(&vars);
    assert_eq!(kept, vec![var("TF_A", "a"), var("TF_X", "first"), var("TF_X", "second")]);
}

#[test]
fn empty_value_and_empty_rest_of_name() {
    let vars = vec![var("TF_", ""), var("TF_EMPTY", "")];
    let base = base_command(&opt(None, None), &vars);
    assert_eq!(base, "TF_= TF_EMPTY= terraform -chdir=.");
}

#[test]
fn names_are_ordered_by_character() {
    assert!(name_le_text("", ""));
    assert!(name_le_text("", "a"));
    assert!(!name_le_text("a", ""));
    assert!(name_le_text("a", "a"));
    assert!(name_le_text("a", "b"));
    assert!(!name_le_text("b", "a"));
    assert!(name_le_text("TF_A", "TF_AB"));
    assert!(!name_le_text("TF_AB", "TF_A"));
    assert!(name_le_text("TF_Z", "TF_a"));
    assert!(!name_le_text("TF_a", "TF_Z"));
    assert!(name_le_text("TF_z", "TF_\u{e9}"));
    assert!(!name_le_text("TF_\u{e9}", "TF_z"));
}

#[test]
fn names_are_ordered_as_strings_are() {
    let names = ["", "TF_", "TF_A", "TF_AB", "TF_B", "TF_a", "TF_\u{e9}", "TF_\u{1F600}", "T"];
    for a in names {
        for b in names {
            assert_eq!(name_le_text(a, b), a <= b);
        }
    }
}

#[test]
fn slot_is_behind_the_last_name_not_after() {
    let sorted = vec![var("TF_A", "1"), var("TF_C", "2"), var("TF_C", "3"), var("TF_E", "4")];
    assert_eq!(slot_of(&sorted, "TF_"), 0);
    assert_eq!(slot_of(&sorted, "TF_A"), 1);
    assert_eq!(slot_of(&sorted, "TF_B"), 1);
    assert_eq!(slot_of(&sorted, "TF_C"), 3);
    assert_eq!(slot_of(&sorted, "TF_D"), 3);
    assert_eq!(slot_of(&sorted, "TF_F"), 4);
    assert_eq!(slot_of(&Vec::new(), "TF_F"), 0);
}

#[test]
fn docker_command_joins_with_spaces() {
    assert_eq!(Docker::command(&["run", "--rm=true", "image"]), "docker run --rm=true image");
}

#[test]
fn docker_command_with_one_argument() {
    assert_eq!(Docker::command(&["ps"]), "docker ps");
}

#[test]
fn docker_command_without_arguments() {
    assert_eq!(Docker::command(&[]), "docker ");
}
