use label_printer::catalog::HEIGHT_CAP_PT;
use label_printer::template::may_recurse_exec;
use label_printer::{
    make_html, page_size_attribute_for_height, physical_dimensions, print_arguments,
    resolve_paper_name, template_path, JobAction, JobEvent, LabelError, Measurement,
    PhysicalDimensions, ProducerJob, Stage, DEFAULT_PAPER_NAME, PDF,
};

fn descriptor(entries: &[(&str, &str)]) -> Vec<u8> {
    let mut text = String::from("*PPD-Adobe: \"4.3\"\n*DefaultPageSize: BrL063E01E745F9\n");
    for (name, height) in entries {
        text.push_str(&format!("*PaperDimension {}/c62x100: \"175.68 {}\"\n", name, height));
    }
    text.into_bytes()
}

fn run_job(events: &[JobEvent]) -> Vec<JobAction> {
    let (mut job, first) = ProducerJob::start();
    let mut actions = vec![first];
    for ev in events {
        let (next, action) = job.step(*ev);
        job = next;
        actions.push(action);
    }
    actions
}

#[test]
fn dimensions_follow_pixel_size() {
    let d = physical_dimensions(Measurement { width_mpx: 96000, height_mpx: 192000 });
    assert_eq!(d, PhysicalDimensions { width_um: 25400, height_um: 50800 });
    let d = physical_dimensions(Measurement { width_mpx: 100000, height_mpx: 234567 });
    assert_eq!(d.width_um, 26458);
    assert_eq!(d.height_um, 62062);
    let exact_w = 100.0f64 / 96.0 * 25.4 * 1000.0;
    assert!((d.width_um as f64 - exact_w).abs() < 1.0);
}

#[test]
fn job_runs_to_an_exactly_sized_artifact() {
    let m = Measurement { width_mpx: 234000, height_mpx: 96000 };
    let dims = physical_dimensions(m);
    let actions = run_job(&[
        JobEvent::Done,
        JobEvent::Done,
        JobEvent::Done,
        JobEvent::Measured(m),
        JobEvent::Done,
        JobEvent::Done,
    ]);
    assert_eq!(
        actions,
        vec![
            JobAction::AcquireEngine,
            JobAction::CreateScope,
            JobAction::Load,
            JobAction::Measure,
            JobAction::Export(dims),
            JobAction::Persist,
            JobAction::Finish(dims),
        ]
    );
    assert_eq!(dims, PhysicalDimensions { width_um: 61912, height_um: 25400 });
}

#[test]
fn missing_label_fails_with_element_not_found() {
    let actions = run_job(&[JobEvent::Done, JobEvent::Done, JobEvent::Done, JobEvent::LabelMissing]);
    assert_eq!(actions[4], JobAction::Abort(LabelError::ElementNotFound, true));
}

#[test]
fn zero_size_label_fails_with_element_not_found() {
    let m = Measurement { width_mpx: 0, height_mpx: 50000 };
    let actions = run_job(&[JobEvent::Done, JobEvent::Done, JobEvent::Done, JobEvent::Measured(m)]);
    assert_eq!(actions[4], JobAction::Abort(LabelError::ElementNotFound, true));
}

#[test]
fn failures_release_what_the_job_holds() {
    let actions = run_job(&[JobEvent::Done, JobEvent::Failed]);
    assert_eq!(actions[2], JobAction::Abort(LabelError::StorageError, false));
    let actions = run_job(&[JobEvent::Done, JobEvent::Done, JobEvent::Failed]);
    assert_eq!(actions[3], JobAction::Abort(LabelError::DocumentEngineError, true));
    let m = Measurement { width_mpx: 96000, height_mpx: 96000 };
    let actions = run_job(&[
        JobEvent::Done,
        JobEvent::Done,
        JobEvent::Done,
        JobEvent::Measured(m),
        JobEvent::Failed,
    ]);
    assert_eq!(actions[5], JobAction::Abort(LabelError::DocumentEngineError, true));
}

#[test]
fn engine_is_held_until_the_job_ends() {
    let (job, _) = ProducerJob::start();
    assert!(!job.holds_engine);
    let (job, _) = job.step(JobEvent::Done);
    assert!(job.holds_engine);
    let (job, _) = job.step(JobEvent::Done);
    let (job, _) = job.step(JobEvent::Done);
    let (job, _) = job.step(JobEvent::Measured(Measurement { width_mpx: 96000, height_mpx: 96000 }));
    assert!(job.holds_engine && job.holds_scope);
    let (job, _) = job.step(JobEvent::Done);
    assert_eq!(job.stage, Stage::Persisting);
    assert!(job.holds_engine);
    let (job, _) = job.step(JobEvent::Done);
    assert_eq!(job.stage, Stage::Finished);
    assert!(!job.holds_engine && !job.holds_scope);
}

#[test]
fn out_of_order_event_is_an_engine_fault() {
    let (job, _) = ProducerJob::start();
    let (job, action) = job.step(JobEvent::LabelMissing);
    assert_eq!(action, JobAction::Abort(LabelError::DocumentEngineError, false));
    assert_eq!(job.stage, Stage::Failed);
}

#[test]
fn nearest_height_wins() {
    let t = descriptor(&[("BrA", "203.0"), ("BrB", "300.0")]);
    // 210 pt and 260 pt, in micrometres.
    assert_eq!(resolve_paper_name(74083, &t), "BrA");
    assert_eq!(resolve_paper_name(91722, &t), "BrB");
}

#[test]
fn first_declaration_wins_a_tie() {
    // 63.5 mm is exactly 180 pt: 170 pt and 190 pt are equally near.
    let t = descriptor(&[("BrLow", "170"), ("BrHigh", "190")]);
    assert_eq!(resolve_paper_name(63500, &t), "BrLow");
    let t = descriptor(&[("BrHigh", "190"), ("BrLow", "170")]);
    assert_eq!(resolve_paper_name(63500, &t), "BrHigh");
}

#[test]
fn resolution_is_deterministic() {
    let t = descriptor(&[("BrA", "203.0"), ("BrB", "300.0")]);
    let first = resolve_paper_name(80000, &t);
    let second = resolve_paper_name(80000, &t);
    assert_eq!(first, second);
}

#[test]
fn unreadable_or_empty_descriptor_gives_default() {
    assert_eq!(page_size_attribute_for_height(50000, None), DEFAULT_PAPER_NAME);
    assert_eq!(page_size_attribute_for_height(50000, Some(&[])), DEFAULT_PAPER_NAME);
    assert_eq!(resolve_paper_name(50000, b"no declarations here"), DEFAULT_PAPER_NAME);
    assert_eq!(DEFAULT_PAPER_NAME, "BrL063E01E745F9");
}

#[test]
fn readable_descriptor_is_used() {
    let t = descriptor(&[("BrA", "203.0")]);
    assert_eq!(page_size_attribute_for_height(74083, Some(&t)), "BrA");
}

#[test]
fn declaration_beyond_seed_distance_is_not_chosen() {
    let t = descriptor(&[("BrHuge", "10000")]);
    assert_eq!(resolve_paper_name(10000, &t), DEFAULT_PAPER_NAME);
    let t = descriptor(&[("BrHuge", "99999999999999999999999999")]);
    assert_eq!(resolve_paper_name(10000, &t), DEFAULT_PAPER_NAME);
    assert!(HEIGHT_CAP_PT > 5000);
}

#[test]
fn malformed_declarations_are_skipped() {
    let text = [
        "*PaperDimension BrBad/c62x100: \"175.68 1.2.3\"",
        "*PaperDimension BrDot/c62x100: \"175.68 .\"",
        "*PaperDimension XyNoBr/c62x100: \"175.68 70\"",
        "*PaperDimension BrNoSyn/62x100: \"175.68 70\"",
        "*PaperDimension BrGood/c62x100:\t\"175.68 283.46\"",
    ]
    .join("\n");
    assert_eq!(resolve_paper_name(100000, text.as_bytes()), "BrGood");
    assert_eq!(resolve_paper_name(24694, text.as_bytes()), "BrGood");
}

#[test]
fn fractional_heights_are_read() {
    let t = descriptor(&[("BrShort", ".5"), ("BrLong", "5.")]);
    // 1.764 mm is 5.0003 pt.
    assert_eq!(resolve_paper_name(1764, &t), "BrLong");
    assert_eq!(resolve_paper_name(0, &t), "BrShort");
}

#[test]
fn template_file_follows_naming_convention() {
    assert_eq!(template_path("simple"), "./templates/simple.html.hbs");
}

#[test]
fn html_is_rendered_from_template() {
    let content: serde_json::Value = serde_json::from_str("{\"content\": \"World\"}").unwrap();
    let html = make_html(Some("<div id=\"label\">Hello {{content}}</div>"), &content);
    assert_eq!(html, Ok(String::from("<div id=\"label\">Hello World</div>")));
}

#[test]
fn missing_template_is_reported() {
    let content: serde_json::Value = serde_json::from_str("{}").unwrap();
    assert_eq!(make_html(None, &content), Err(LabelError::TemplateNotFound));
}

#[test]
fn broken_template_is_a_render_error() {
    let content: serde_json::Value = serde_json::from_str("{}").unwrap();
    assert_eq!(make_html(Some("{{#each items}}"), &content), Err(LabelError::RenderError));
}

#[test]
fn print_arguments_carry_paper_and_path() {
    let args = print_arguments("BrA", "/tmp/x/label.pdf");
    assert_eq!(
        args,
        vec![
            "-d",
            "QL600",
            "-o",
            "BrTrimtape=OFF",
            "-o",
            "BrPriority=BrQuality",
            "-o",
            "PageSize=BrA",
            "/tmp/x/label.pdf",
        ]
    );
}

#[test]
fn artifact_storage_is_removed_with_it() {
    let dir = tempfile::tempdir().unwrap();
    let dir_path = dir.path().to_path_buf();
    let path = dir_path.join("label.pdf");
    let pdf = PDF::new(
        dir,
        path.clone(),
        PhysicalDimensions { width_um: 62000, height_um: 29000 },
    );
    assert_eq!(pdf.get_path(), &path);
    assert_eq!(pdf.page_width_um, 62000);
    assert_eq!(pdf.page_height_um, 29000);
    assert!(dir_path.exists());
    drop(pdf);
    assert!(!dir_path.exists());
}

#[test]
fn every_decimal_of_a_height_counts() {
    // 35278 um is 100.00063 pt: 100.0006 lies nearer than 100.0004.
    let t = descriptor(&[("BrA", "100.0004"), ("BrB", "100.0006")]);
    assert_eq!(resolve_paper_name(35278, &t), "BrB");
    let t = descriptor(&[("BrB", "100.0006"), ("BrA", "100.0004")]);
    assert_eq!(resolve_paper_name(35278, &t), "BrB");
    let t = descriptor(&[("BrA", "99.999999999999"), ("BrB", "100.000000000001")]);
    // 35278 um lies above 100 pt, so the second is nearer by 2e-12 pt.
    assert_eq!(resolve_paper_name(35278, &t), "BrB");
}

#[test]
fn recursive_partials_are_refused() {
    let content: serde_json::Value = serde_json::from_str("{}").unwrap();
    let looping = "{{#*inline \"me\"}}{{> me}}{{/inline}}{{> me}}";
    assert_eq!(make_html(Some(looping), &content), Err(LabelError::RenderError));
    let block = "{{#> outer}}x{{> @partial-block}}{{/outer}}";
    assert_eq!(make_html(Some(block), &content), Err(LabelError::RenderError));
    assert!(may_recurse_exec(b"{{~ # > x}}y{{/x}}"));
    assert!(may_recurse_exec(b"{{ #* inline \"a\"}}{{~> a}}{{/ inline}}"));
}

#[test]
fn harmless_partials_are_rendered() {
    let content: serde_json::Value = serde_json::from_str("{}").unwrap();
    assert_eq!(make_html(Some("a{{> x}}b"), &content), Ok(String::from("ab")));
    let unused = "{{#*inline \"x\"}}hi{{/inline}}done";
    assert_eq!(make_html(Some(unused), &content), Ok(String::from("done")));
    let included = "{{#*inline \"x\"}}hi{{/inline}}<{{> x}}>";
    assert_eq!(make_html(Some(included), &content), Ok(String::from("<hi>")));
    assert!(!may_recurse_exec(b"<div id=\"label\">{{content}}</div> > *"));
}

#[test]
fn html_escapes_content() {
    let content: serde_json::Value = serde_json::from_str("{\"content\": \"a<b\"}").unwrap();
    let html = make_html(Some("{{content}}"), &content);
    assert_eq!(html, Ok(String::from("a&lt;b")));
}

#[test]
fn unicode_whitespace_after_colon_is_taken() {
    let text = "*PaperDimension BrNbsp/c62x100:\u{a0}\"175.68 283.46\"\n\
                *PaperDimension BrIdeo/c62x29:\u{3000}\"175.68 82.2\"\n\
                *PaperDimension BrNone/c62x50:\"175.68 141.7\"\n";
    // 100 mm, 29 mm and 50 mm high.
    assert_eq!(resolve_paper_name(100000, text.as_bytes()), "BrNbsp");
    assert_eq!(resolve_paper_name(29000, text.as_bytes()), "BrIdeo");
    assert_eq!(resolve_paper_name(50000, text.as_bytes()), "BrIdeo");
}

#[test]
fn errors_name_the_failing_component() {
    assert_eq!(LabelError::TemplateNotFound.message(), "template renderer: template not found");
    assert_eq!(
        LabelError::ElementNotFound.message(),
        "document engine: no #label element of some size"
    );
    assert_eq!(LabelError::PrintSubsystemError.message(), "print dispatcher: print command failed");
}
