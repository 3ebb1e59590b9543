use xcsteps::engine::{keyword, next_block, parse_block, parse_steps, parse_steps_strict, recognize};
use xcsteps::error::{Error, Field, StepKind};
use xcsteps::machine::{feed, parse_header, rule, Rule, State};
use xcsteps::source::LineSource;
use xcsteps::steps::Step;

const TWO_BLOCKS: &str = "Ld /out/App.app/App normal (in target 'T' from project 'P')\n    cd /root\n    clang -o App\n\nnote: something else is going on\nCompileStoryboard /a.storyboard (in target 'T' from project 'P')\n    cd /x\n    export X=1\n    /usr/bin/ibtool ...\n\n";

#[test]
fn keywords() {
    assert_eq!(keyword(StepKind::Ld), "Ld");
    assert_eq!(keyword(StepKind::CompileC), "CompileC");
    assert_eq!(keyword(StepKind::CompileStoryboard), "CompileStoryboard");
}

#[test]
fn recognize_goes_by_the_first_word() {
    assert_eq!(recognize("Ld /x"), Some(StepKind::Ld));
    assert_eq!(recognize("  Ld"), Some(StepKind::Ld));
    assert_eq!(recognize("CompileC a b"), Some(StepKind::CompileC));
    assert_eq!(recognize("CompileStoryboard a"), Some(StepKind::CompileStoryboard));
    assert_eq!(recognize("CompileSwift a"), None);
    assert_eq!(recognize("Ldx /x"), None);
    assert_eq!(recognize("ld /x"), None);
    assert_eq!(recognize("note: Ld /x"), None);
    assert_eq!(recognize(""), None);
    assert_eq!(recognize("   "), None);
}

#[test]
fn one_ld_block() {
    let mut source = LineSource::from_text(
        "Ld /out/App.app/App normal (in target 'T' from project 'P')\n    cd /root\n    ...\n\n",
    );
    let steps = parse_steps(&mut source);
    assert_eq!(steps.len(), 1);
    match &steps[0] {
        Step::Ld(step) => {
            assert_eq!(step.output_path, "/out/App.app/App");
            assert_eq!(step.description.target, "T");
            assert_eq!(step.description.project, "P");
        }
        other => panic!("{other:?}"),
    }
    assert!(source.is_exhausted());
}

#[test]
fn one_storyboard_block() {
    let mut source = LineSource::from_text(
        "CompileStoryboard /a.storyboard (in target 'T' from project 'P')\n    cd /x\n    export X=1\n    /usr/bin/ibtool ...\n\n",
    );
    let steps = parse_steps(&mut source);
    assert_eq!(steps.len(), 1);
    match &steps[0] {
        Step::CompileStoryboard(step) => {
            assert_eq!(step.path, "/a.storyboard");
            assert_eq!(step.description.target, "T");
            assert_eq!(step.description.project, "P");
        }
        other => panic!("{other:?}"),
    }
}

#[test]
fn two_blocks_with_noise_between_them() {
    let mut source = LineSource::from_text(TWO_BLOCKS);
    let steps = parse_steps(&mut source);
    assert_eq!(steps.len(), 2);
    assert!(matches!(&steps[0], Step::Ld(s) if s.output_path == "/out/App.app/App"));
    assert!(matches!(&steps[1], Step::CompileStoryboard(s) if s.path == "/a.storyboard"));
    assert!(source.is_exhausted());
}

#[test]
fn the_same_lines_give_the_same_steps() {
    let first = parse_steps(&mut LineSource::from_text(TWO_BLOCKS));
    let second = parse_steps(&mut LineSource::from_text(TWO_BLOCKS));
    assert_eq!(format!("{first:?}"), format!("{second:?}"));
    assert_eq!(first.len(), 2);
}

#[test]
fn a_compile_c_block_leaves_its_body_as_noise() {
    let mut source = LineSource::from_text(
        "CompileC o.o i.c normal arm64 c clang (in target 'T' from project 'P')\n    cd /r\n    clang ...\n\nLd /bin normal (in target 'T' from project 'P')\n",
    );
    let steps = parse_steps(&mut source);
    assert_eq!(steps.len(), 2);
    assert!(matches!(&steps[0], Step::CompileC(s) if s.path == "i.c" && s.output_path == "o.o"));
    assert!(matches!(&steps[1], Step::Ld(s) if s.output_path == "/bin"));
}

#[test]
fn blocks_come_one_by_one() {
    let mut source = LineSource::from_text(TWO_BLOCKS);
    let first = next_block(&mut source).unwrap();
    assert_eq!(first.kind, StepKind::Ld);
    assert_eq!(first.header, "Ld /out/App.app/App normal (in target 'T' from project 'P')");
    assert!(matches!(&first.outcome.unwrap()[0], Step::Ld(_)));
    assert_eq!(source.peek().unwrap(), "note: something else is going on");
    let second = next_block(&mut source).unwrap();
    assert_eq!(second.kind, StepKind::CompileStoryboard);
    assert!(matches!(&second.outcome.unwrap()[0], Step::CompileStoryboard(_)));
    assert!(source.is_exhausted());
    assert!(next_block(&mut source).is_none());
}

#[test]
fn no_header_at_all() {
    let mut source = LineSource::from_text("warning: a\n\nwarning: b\n");
    assert!(next_block(&mut source).is_none());
    assert!(source.is_exhausted());
    assert!(parse_steps(&mut LineSource::from_text("x\ny\n")).is_empty());
    assert!(parse_steps(&mut LineSource::from_text("")).is_empty());
    assert_eq!(
        parse_steps_strict(&mut LineSource::from_text("x\ny\n")).unwrap().len(),
        0
    );
}

const WITH_FAILURE: &str = "Ld /one (in target 'T' from project 'P')\n    cd /\n\nCompileStoryboard\n    cd /\n\nLd /two\n    cd /\n\nLd /three (in target 'T' from project 'P')\n";

#[test]
fn failed_blocks_are_passed_over() {
    let mut source = LineSource::from_text(WITH_FAILURE);
    let steps = parse_steps(&mut source);
    assert_eq!(steps.len(), 2);
    assert!(matches!(&steps[0], Step::Ld(s) if s.output_path == "/one"));
    assert!(matches!(&steps[1], Step::Ld(s) if s.output_path == "/three"));
    assert!(source.is_exhausted());
}

#[test]
fn strict_stops_at_the_first_failure() {
    let mut source = LineSource::from_text(WITH_FAILURE);
    let r = parse_steps_strict(&mut source);
    assert_eq!(
        r.unwrap_err(),
        Error::UnexpectedEndOfInput(StepKind::CompileStoryboard, Field::Path)
    );
    // The source stands behind the block that failed.
    assert_eq!(source.peek().unwrap(), "Ld /two");
    let r = parse_steps_strict(&mut source);
    assert_eq!(r.unwrap_err(), Error::MalformedDescription);
    let steps = parse_steps_strict(&mut source).unwrap();
    assert_eq!(steps.len(), 1);
    assert!(matches!(&steps[0], Step::Ld(s) if s.output_path == "/three"));
    assert!(source.is_exhausted());
}

#[test]
fn strict_gives_every_step_of_a_clean_log() {
    let mut source = LineSource::from_text(TWO_BLOCKS);
    let steps = parse_steps_strict(&mut source).unwrap();
    assert_eq!(steps.len(), 2);
    assert!(source.is_exhausted());
}

#[test]
fn parse_block_takes_the_body_of_its_kind() {
    let mut source = LineSource::from_text("  body\n\n\nrest\n");
    let line = String::from("Ld /x (in target 'T' from project 'P')");
    let steps = parse_block(StepKind::Ld, line, &mut source).unwrap();
    assert_eq!(steps.len(), 1);
    assert_eq!(source.peek().unwrap(), "");

    let mut source = LineSource::from_text("\n\nrest\n");
    let line = String::from("CompileC a b c d e f (in target 'T' from project 'P')");
    let steps = parse_block(StepKind::CompileC, line, &mut source).unwrap();
    assert!(matches!(&steps[0], Step::CompileC(s) if s.arch == "d" && s.lang == "e" && s.compiler == "f"));
    assert_eq!(source.peek().unwrap(), "rest");

    let mut source = LineSource::from_text("x\n\nrest\n");
    let r = parse_block(StepKind::CompileStoryboard, String::from("CompileStoryboard /a"), &mut source);
    assert_eq!(r.unwrap_err(), Error::MalformedDescription);
    assert_eq!(source.peek().unwrap(), "rest");
}

#[test]
fn fed_line_by_line_the_machine_gives_the_same_steps() {
    for text in [TWO_BLOCKS, WITH_FAILURE, "", "noise\n", "CompileC a b c d e f (in target 'T' from project 'P')\n\n\nLd /x (in target 'T' from project 'P')\nLd /y (in target 'T' from project 'P')\n\nLd /z (in target 'T' from project 'P')\n"] {
        let mut state = State::Scanning;
        let mut steps: Vec<Step> = Vec::new();
        for line in text.lines() {
            let (next, outcome) = feed(state, line);
            state = next;
            if let Some(Ok(found)) = outcome {
                steps.extend(found);
            }
        }
        let whole = parse_steps(&mut LineSource::from_text(text));
        assert_eq!(format!("{steps:?}"), format!("{whole:?}"));
    }
}

#[test]
fn machine_states() {
    assert_eq!(rule(StepKind::Ld), Rule::TillEmptyLine);
    assert_eq!(rule(StepKind::CompileStoryboard), Rule::TillEmptyLine);
    assert_eq!(rule(StepKind::CompileC), Rule::EmptyLines);

    let (state, out) = feed(State::Scanning, "note: nothing");
    assert_eq!(state, State::Scanning);
    assert!(out.is_none());

    let (state, out) = feed(State::Scanning, "Ld /x (in target 'T' from project 'P')");
    assert_eq!(state, State::Delegating(Rule::TillEmptyLine));
    assert!(matches!(&out.unwrap().unwrap()[0], Step::Ld(s) if s.output_path == "/x"));

    // A header line inside a body is a line of the body.
    let (state, out) = feed(state, "Ld /y (in target 'T' from project 'P')");
    assert_eq!(state, State::Delegating(Rule::TillEmptyLine));
    assert!(out.is_none());
    let (state, out) = feed(state, "  ");
    assert_eq!(state, State::Scanning);
    assert!(out.is_none());

    let (state, out) = feed(state, "CompileC a");
    assert_eq!(state, State::Delegating(Rule::EmptyLines));
    assert_eq!(
        out.unwrap().unwrap_err(),
        Error::UnexpectedEndOfInput(StepKind::CompileC, Field::Path)
    );
    let (state, out) = feed(state, "");
    assert_eq!(state, State::Delegating(Rule::EmptyLines));
    assert!(out.is_none());
    let (state, out) = feed(state, "CompileStoryboard /s (in target 'T' from project 'P')");
    assert_eq!(state, State::Delegating(Rule::TillEmptyLine));
    assert!(matches!(&out.unwrap().unwrap()[0], Step::CompileStoryboard(s) if s.path == "/s"));
    let (state, out) = feed(State::Delegating(Rule::EmptyLines), "cd /root");
    assert_eq!(state, State::Scanning);
    assert!(out.is_none());

    assert_eq!(
        parse_header(StepKind::Ld, "Ld").unwrap_err(),
        Error::UnexpectedEndOfInput(StepKind::Ld, Field::OutputPath)
    );
    assert_eq!(parse_header(StepKind::CompileStoryboard, "X /p (in target 'T' from project 'P')").unwrap().len(), 1);
}

#[test]
fn a_failed_block_comes_with_its_header() {
    let mut source = LineSource::from_text("x\nLd /two\n    cd /\n\nafter\n");
    let block = next_block(&mut source).unwrap();
    assert_eq!(block.kind, StepKind::Ld);
    assert_eq!(block.header, "Ld /two");
    assert_eq!(block.outcome.unwrap_err(), Error::MalformedDescription);
    assert_eq!(source.peek().unwrap(), "after");
}
