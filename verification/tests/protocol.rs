use tf_doom::protocol::Instruction;

fn kill(name: &str) -> Option<Instruction> {
    Some(Instruction::Kill(name.to_string()))
}

#[test]
fn list_is_read() {
    assert_eq!(Instruction::parse("list\n"), Some(Instruction::List));
    assert_eq!(Instruction::parse("list"), Some(Instruction::List));
}

#[test]
fn list_ignores_what_follows() {
    assert_eq!(Instruction::parse("list everything\n"), Some(Instruction::List));
    assert_eq!(Instruction::parse("list\nkill x\n"), Some(Instruction::List));
}

#[test]
fn kill_names_the_resource() {
    assert_eq!(Instruction::parse("kill aws_instance.web\n"), kill("aws_instance.web"));
    assert_eq!(Instruction::parse("kill aws_instance.web"), kill("aws_instance.web"));
}

#[test]
fn kill_takes_the_second_word_only() {
    assert_eq!(Instruction::parse("kill a b c\n"), kill("a"));
    assert_eq!(Instruction::parse("kill a\nb\n"), kill("a"));
}

#[test]
fn kill_without_a_name_has_an_empty_one() {
    assert_eq!(Instruction::parse("kill\n"), kill(""));
    assert_eq!(Instruction::parse("kill"), kill(""));
    assert_eq!(Instruction::parse("kill \n"), kill(""));
    assert_eq!(Instruction::parse("kill  x\n"), kill(""));
}

#[test]
fn kill_keeps_other_characters_in_the_name() {
    assert_eq!(Instruction::parse("kill a\tb\n"), kill("a\tb"));
    assert_eq!(Instruction::parse("kill module.x[\"k\"]\n"), kill("module.x[\"k\"]"));
    assert_eq!(Instruction::parse("kill \u{e9}\u{1F600}\n"), kill("\u{e9}\u{1F600}"));
}

#[test]
fn unknown_verbs_are_none() {
    assert_eq!(Instruction::parse("ping\n"), None);
    assert_eq!(Instruction::parse("LIST\n"), None);
    assert_eq!(Instruction::parse("lists\n"), None);
    assert_eq!(Instruction::parse("killx y\n"), None);
    assert_eq!(Instruction::parse(" list\n"), None);
    assert_eq!(Instruction::parse("list\r\n"), None);
    assert_eq!(Instruction::parse("list\0\0"), None);
}

#[test]
fn empty_input_is_none() {
    assert_eq!(Instruction::parse(""), None);
    assert_eq!(Instruction::parse("\n"), None);
    assert_eq!(Instruction::parse("\nlist\n"), None);
}
