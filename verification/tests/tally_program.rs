use sekiva::tally::{tally_votes, SecretVar, SecretVarType};

fn vote(value: i8) -> SecretVar {
    SecretVar { metadata: SecretVarType::Vote, value }
}

#[test]
fn tally_counts_each_option_slot() {
    let vars = vec![vote(0), vote(1), vote(1), vote(4), vote(2), vote(1)];
    let out = tally_votes(&vars);
    assert_eq!(out.option_0, 1);
    assert_eq!(out.option_1, 3);
    assert_eq!(out.option_2, 1);
    assert_eq!(out.option_3, 0);
    assert_eq!(out.option_4, 1);
}

#[test]
fn tally_ignores_foreign_variables_and_stray_values() {
    let vars = vec![
        vote(0),
        SecretVar { metadata: SecretVarType::TallyResult, value: 0 },
        vote(7),
        vote(-1),
        vote(0),
    ];
    let out = tally_votes(&vars);
    // Only the two genuine option-0 votes count: the result variable is not
    // a vote, and values outside the five option slots fall nowhere.
    assert_eq!(out.option_0, 2);
    assert_eq!(out.option_1, 0);
    assert_eq!(out.option_2, 0);
    assert_eq!(out.option_3, 0);
    assert_eq!(out.option_4, 0);
}

#[test]
fn tally_of_no_votes_is_all_zero() {
    let out = tally_votes(&Vec::new());
    assert_eq!(out.option_0 + out.option_1 + out.option_2 + out.option_3 + out.option_4, 0);
}
