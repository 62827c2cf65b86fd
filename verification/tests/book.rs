use dewey::book::extension_for;

#[test]
fn extension_for_known_and_unknown() {
    assert_eq!(extension_for("epub"), "epub");
    assert_eq!(extension_for("txt"), "txt");
    assert_eq!(extension_for("weird"), "weird");
}
