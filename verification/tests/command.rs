use minskatt::command::{Goal, LogLevel, MinSkatt, ValidateOpt};
use minskatt::grammar::GrammarError;
use minskatt::sru_parser::ParseError;

fn program(verbose: bool, quiet: bool) -> MinSkatt {
    MinSkatt {
        verbose,
        quiet,
        cmd: Goal::Validate(ValidateOpt { file: "./INFO.SRU".to_string() }),
    }
}

const INFO: &str = "#DATABESKRIVNING_START #PRODUKT SRU #FILNAMN f.sru #DATABESKRIVNING_SLUT #MEDIELEV_START #ORGNR 1 #NAMN n #POSTNR 00123 #POSTORT s #MEDIELEV_SLUT";
const WRITTEN: &str = "#DATABESKRIVNING_START\n#PRODUKT SRU\n#FILNAMN f.sru\n#DATABESKRIVNING_SLUT\n#MEDIELEV_START\n#ORGNR 1\n#NAMN n\n#POSTNR 123\n#POSTORT s\n#MEDIELEV_SLUT\n";

#[test]
fn quiet_wins_over_verbose() {
    assert_eq!(program(false, false).level(), LogLevel::Info);
    assert_eq!(program(true, false).level(), LogLevel::Debug);
    assert_eq!(program(false, true).level(), LogLevel::Off);
    assert_eq!(program(true, true).level(), LogLevel::Off);
}

#[test]
fn goal_names_its_file() {
    assert_eq!(program(false, false).cmd.file(), "./INFO.SRU");
}

#[test]
fn run_writes_the_document_out() {
    let report = program(true, false).run(INFO.to_string());
    assert_eq!(report.level, LogLevel::Debug);
    assert_eq!(report.outcome, Ok(WRITTEN.to_string()));
}

#[test]
fn run_prints_nothing_for_forms() {
    let report = program(false, false).run("#FIL_SLUT".to_string());
    assert_eq!(report.outcome, Ok(String::new()));
}

#[test]
fn run_gives_the_error_of_the_parser() {
    let report = program(false, true).run(String::new());
    assert_eq!(report.level, LogLevel::Off);
    assert_eq!(report.outcome, Err(ParseError::Grammar(GrammarError::UnrecognizedDocument)));
    let goal = Goal::Validate(ValidateOpt { file: String::new() });
    assert_eq!(
        goal.run("#PRODUKT".to_string()),
        Err(ParseError::Grammar(GrammarError::UnrecognizedDocument))
    );
    assert_eq!(
        ValidateOpt { file: String::new() }.validate(INFO.to_string()),
        Ok(WRITTEN.to_string())
    );
}
