use drakkar_vfx::editor::SectionStates;

#[test]
fn sections_default_to_expanded() {
    let s = SectionStates::new();
    assert!(s.get_section_expanded_state("Spawner"));
}

#[test]
fn section_state_reads_back_last_write() {
    let mut s = SectionStates::new();
    s.set_section_expanded_state("Spawner", false);
    s.set_section_expanded_state("Force Fields", false);
    s.set_section_expanded_state("Force Fields", true);
    assert!(!s.get_section_expanded_state("Spawner"));
    assert!(s.get_section_expanded_state("Force Fields"));
    assert!(s.get_section_expanded_state("Properties"));
}
