use momors_core::phase::Phase;

#[test]
fn phase_names_in_table_order() {
    let phases = [
        Phase::Total,
        Phase::Normalize,
        Phase::Source,
        Phase::Featurize,
        Phase::Resolve,
        Phase::Loop,
        Phase::Read,
        Phase::Boundary,
        Phase::Finalize,
    ];
    let names: Vec<&str> = phases.iter().map(|p| p.name()).collect();
    assert_eq!(names, vec!["total", "normalize", "source", "featurize", "resolve", "loop", "read", "boundary", "finalize"]);
    for (i, p) in phases.iter().enumerate() {
        assert_eq!(p.index(), i);
    }
}
