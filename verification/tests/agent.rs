use bugs::agent::{parse_subtasks, sub_agent_result, AgentKind, Overmind, SubAgentResult};
use bugs::models::{Message, ModelError, Role};
use bugs::scheduler::Scheduler;

#[test]
fn overmind_default_is_main() {
    let om = Overmind::default();
    assert_eq!(om.identity.name, "Overmind");
    assert!(matches!(om.identity.kind, AgentKind::Main));
}

#[test]
fn syntheize_empty_results() {
    let om = Overmind::default();
    let s = om.synthesize(&[]);
    assert!(s.contains("没有子任务"));
}

#[test]
fn synthesis_report() {
    let om = Overmind::new().with_model("m".into());
    assert_eq!(om.model, "m");
    let r = vec![SubAgentResult { task_id: 1, subtask: "a".into(), result: "done".into(), success: true }];
    assert_eq!(
        om.synthesize(&r),
        "🧠 子Agent 执行结果：\n\n**兵虫 #1**\n  任务: a\n  done\n\n── 星空虫族汇报完毕 ──"
    );
}

#[test]
fn subtasks_from_an_answer() {
    assert_eq!(parse_subtasks("1. 搜索资料\n2) 写报告\n\n- 检查"), vec!["搜索资料", ") 写报告", "检查"]);
}

#[test]
fn decompose_request_and_results() {
    let om = Overmind::new();
    let ctx = vec![Message { role: Role::Assistant, content: "hi".into() }];
    let msgs = om.decompose_messages("做饭", &ctx);
    assert_eq!(msgs.len(), 2);
    assert_eq!(msgs[1].role, Role::User);
    assert_eq!(
        msgs[1].content,
        "将以下用户需求分解为可并行执行的子任务列表。每行一个子任务，不要编号。\n\n用户需求：做饭\n\n子任务："
    );
    let bad = sub_agent_result(3, "t".into(), Err(ModelError::Timeout));
    assert_eq!(bad.result, "✗ 执行失败: 超时");
    assert!(bad.success);
}

#[test]
fn overmind_queues_subtasks() {
    let om = Overmind::new();
    let mut s = Scheduler::new(100, 10);
    om.queue(&mut s, &vec!["a".into(), "b".into()]);
    assert_eq!(s.status().active_subagents, 2);
    assert_eq!(s.dequeue().unwrap().description, "a");
}

#[test]
fn overmind_calls() {
    let om = Overmind::new();
    let c = om.subtask_call("find docs");
    assert_eq!((c.model.as_str(), c.max_tokens, c.messages.len()), ("gpt-4o-mini", 4096, 1));
    assert_eq!(c.messages[0].role, Role::User);
    assert_eq!(c.messages[0].content, "find docs");
    let d = om.decompose_call("plan a trip", &vec![]);
    assert_eq!((d.max_tokens, d.messages.len()), (512, 1));
    assert!(d.messages[0].content.contains("plan a trip"));
}
