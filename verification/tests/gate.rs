use book_studio::gate::{
    chapter_gate_report, first_chapter_continuity, gate_chapter_ids, quality_blockers,
    recommended_action, should_split_chapter, ContinuityIssue, ContinuityReport, GateBlocker,
    QualityMetric, QualityReport, QualityWarning,
};
use book_studio::models::Chapter;

fn metric(label: &str, value: f64, unit: &str, target: f64) -> QualityMetric {
    QualityMetric {
        label: label.to_string(),
        value_hundredths: (value * 100.0).round() as i64,
        unit: unit.to_string(),
        target_hundredths: Some((target * 100.0).round() as i64),
    }
}

fn quality(score: u8, verdict: &str, metrics: Vec<QualityMetric>, warnings: Vec<QualityWarning>) -> QualityReport {
    QualityReport {
        artifact_id: 1,
        stage: "draft".to_string(),
        verdict: verdict.to_string(),
        score,
        summary: String::new(),
        metrics,
        warnings,
    }
}

fn continuity(verdict: &str, issues: Vec<ContinuityIssue>) -> ContinuityReport {
    ContinuityReport {
        project_id: 1,
        chapter_titles: vec!["第 3 章".to_string()],
        verdict: verdict.to_string(),
        summary: String::new(),
        issues,
    }
}

fn blocker(title: &str) -> GateBlocker {
    GateBlocker {
        kind: "quality".to_string(),
        severity: "major".to_string(),
        title: title.to_string(),
        detail: String::new(),
        suggestion: String::new(),
    }
}

#[test]
fn blocks_markdown_title_body() {
    // The quality analysis reports a body that opens with a Markdown title
    // ("# 第4章\n\n他拿到赤髓。") under this warning.
    let report = quality(
        80,
        "usable",
        vec![],
        vec![QualityWarning {
            title: "正文含标题".to_string(),
            detail: "正文第一行是 Markdown 标题。".to_string(),
            suggestion: "删除标题行。".to_string(),
        }],
    );
    let blockers = quality_blockers(&report);
    assert!(blockers.iter().any(|blocker| blocker.title == "正文含标题"));
}

#[test]
fn recommends_split_for_dense_reveal_with_major_signal() {
    let quality = quality(
        76,
        "needs_revision",
        vec![
            metric("反转/真相信号", 24.0, "count", 4.0),
            metric("反转/真相密度", 6.4, "ratio", 1.6),
        ],
        vec![],
    );
    let continuity = continuity("strong", vec![]);
    let blockers = vec![blocker("信息反转偏密")];

    let (action, _) = recommended_action(false, &quality, &continuity, &blockers);
    assert_eq!(action, "split");
}

#[test]
fn recommends_revise_for_ordinary_blockers() {
    let quality = quality(
        66,
        "needs_revision",
        vec![
            metric("反转/真相信号", 6.0, "count", 4.0),
            metric("反转/真相密度", 1.4, "ratio", 1.6),
        ],
        vec![],
    );
    let continuity = continuity("strong", vec![]);
    let blockers = vec![blocker("质量分未达可用线")];

    let (action, _) = recommended_action(false, &quality, &continuity, &blockers);
    assert_eq!(action, "revise");
}

#[test]
fn low_scores_and_dense_reveals_block() {
    let report = quality(
        70,
        "needs_revision",
        vec![],
        vec![
            QualityWarning { title: "信息反转偏密".to_string(), detail: "d".to_string(), suggestion: "s".to_string() },
            QualityWarning { title: "叙事失焦".to_string(), detail: "d".to_string(), suggestion: "s".to_string() },
            QualityWarning { title: "其他".to_string(), detail: "d".to_string(), suggestion: "s".to_string() },
        ],
    );
    let blockers = quality_blockers(&report);
    assert_eq!(blockers.len(), 3);
    assert_eq!(blockers[0].detail, "当前本地质量分为 70，低于 72。");
    assert_eq!(blockers[1].severity, "major");
    assert_eq!(blockers[2].severity, "moderate");
    let high = quality(90, "strong", vec![], vec![QualityWarning { title: "信息反转偏密".to_string(), detail: "d".to_string(), suggestion: "s".to_string() }]);
    assert!(quality_blockers(&high).is_empty());
}

#[test]
fn review_issue_asking_for_a_split_advises_splitting() {
    let quality = quality(60, "weak", vec![], vec![]);
    let issue = ContinuityIssue {
        issue_type: "信息过载".to_string(),
        severity: "major".to_string(),
        location: "全章".to_string(),
        reason: "单章负载过高".to_string(),
        suggestion: "拆成两章".to_string(),
    };
    let continuity = continuity("needs_revision", vec![issue]);
    assert!(should_split_chapter(&quality, &continuity, &[]));
}

#[test]
fn gate_passes_a_clean_strong_candidate() {
    let report = chapter_gate_report(1, 2, 3, quality(90, "strong", vec![], vec![]), continuity("strong", vec![]));
    assert!(report.passed);
    assert_eq!(report.verdict, "strong");
    assert_eq!(report.recommended_action, "approve");
    assert_eq!(report.summary, "候选稿已通过检查：质量 90 / strong，连续性 strong。");

    let failing = chapter_gate_report(
        1,
        2,
        3,
        quality(60, "weak", vec![], vec![]),
        continuity(
            "usable",
            vec![ContinuityIssue {
                issue_type: "时间线".to_string(),
                severity: "major".to_string(),
                location: "开头".to_string(),
                reason: "昨夜与今晨矛盾".to_string(),
                suggestion: "统一时间".to_string(),
            }],
        ),
    );
    assert!(!failing.passed);
    assert_eq!(failing.verdict, "blocked");
    assert_eq!(failing.blockers.len(), 2);
    assert_eq!(failing.blockers[1].kind, "continuity");
    assert_eq!(failing.recommended_action, "revise");
    assert_eq!(failing.summary, "候选稿未通过检查：2 个阻断项。质量 60 / weak，连续性 usable。");
}

#[test]
fn gate_reviews_the_chapters_up_to_the_current_one() {
    let ch = |id: i64, no: i64| Chapter {
        id,
        project_id: 1,
        chapter_no: no,
        title: String::new(),
        status: String::new(),
        current_artifact_id: None,
        created_at: String::new(),
        updated_at: String::new(),
    };
    assert_eq!(gate_chapter_ids(&[ch(1, 1), ch(2, 2), ch(3, 3)], 2, 2), vec![1, 2]);
    assert_eq!(gate_chapter_ids(&[ch(1, 1)], 2, 9), vec![1, 9]);
    let first = first_chapter_continuity(1, "第一章");
    assert_eq!(first.verdict, "strong");
    assert_eq!(first.chapter_titles, vec!["第一章".to_string()]);
}
