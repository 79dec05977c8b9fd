//! The short texts that are printed as they stand: questions, labels and notes.
use crate::lang::{pick, t, Lang};
use vstd::prelude::*;
use vstd::string::*;

verus! {

/// A text, by what it says.
#[derive(Clone, Copy, Debug, PartialEq, Eq, Structural)]
pub enum Notice {
    About,
    Cancelled,
    ConfigReloaded,
    ConfigValid,
    CreatingState,
    DaemonIsStopped,
    DaemonNotRunning,
    DaemonStopped,
    DeleteSession,
    HowToCall,
    ImportingKnowledge,
    KnowledgeSkipped,
    KnowledgeUpdated,
    ModelsLoading,
    ModelsNotLoaded,
    NoLogging,
    NoShellHooks,
    NoToolImage,
    NotReloaded,
    PreparingConfig,
    PreparingData,
    PrintHelp,
    PrintVersion,
    QqEnabled,
    ReloadTimedOut,
    ReplyFinished,
    SelectSession,
    SessionModel,
    SkillDisabled,
    SkillEnabled,
    SkillRemoved,
    SkillsPruned,
    SpacePressed,
    Speaking,
    Tip,
    VariantsUpdated,
    WaitingOnYou,
    WebPassword,
    WipeEverything,
    WipeNeedsTerminal,
    WorkspaceUnbound,
    WritingConfig,
    You,
}

/// Its words.
pub open spec fn notice_text(lang: Lang, notice: Notice) -> Seq<char> {
    match notice {
        Notice::About => pick(lang, "Laozhou CLI AI Agent"@, "Laozhou 命令行 AI 助手"@),
        Notice::Cancelled => pick(lang, "cancelled"@, "已取消"@),
        Notice::ConfigReloaded => pick(lang, "configuration reloaded"@, "配置已重新加载"@),
        Notice::ConfigValid => pick(lang, "config is valid"@, "配置有效"@),
        Notice::CreatingState => pick(lang, "Creating state files"@, "正在创建状态文件"@),
        Notice::DaemonIsStopped => pick(lang, "Laozhou daemon: stopped"@, "Laozhou daemon：已停止"@),
        Notice::DaemonNotRunning => pick(
            lang,
            "Laozhou daemon is not running"@,
            "Laozhou daemon 未运行"@,
        ),
        Notice::DaemonStopped => pick(lang, "Laozhou daemon stopped"@, "Laozhou daemon 已停止"@),
        Notice::DeleteSession => pick(
            lang,
            "delete this session and all of its history?"@,
            "确认删除该会话及其全部历史？"@,
        ),
        Notice::HowToCall => pick(
            lang,
            "laozhou [OPTIONS] [MESSAGE]... [COMMAND]"@,
            "laozhou [选项] [消息]... [命令]"@,
        ),
        Notice::ImportingKnowledge => pick(lang, "Importing default knowledge base"@, "正在导入默认知识库"@),
        Notice::KnowledgeSkipped => pick(
            lang,
            "default knowledge base import skipped"@,
            "默认知识库导入已跳过"@,
        ),
        Notice::KnowledgeUpdated => pick(lang, "updated default knowledge base"@, "已更新默认知识库"@),
        Notice::ModelsLoading => pick(
            lang,
            "model metadata is still loading; try /variant again shortly"@,
            "模型元数据仍在加载，请稍后重试 /variant"@,
        ),
        Notice::ModelsNotLoaded => pick(lang, "failed to load model metadata"@, "无法加载模型元数据"@),
        Notice::NoLogging => pick(
            lang,
            "warning: diagnostic logging is unavailable"@,
            "警告：诊断日志不可用"@,
        ),
        Notice::NoShellHooks => pick(
            lang,
            "no installed Laozhou shell hooks found"@,
            "未找到已安装的 Laozhou shell hook"@,
        ),
        Notice::NoToolImage => pick(lang, "Could not display tool image"@, "工具图片显示失败"@),
        Notice::NotReloaded => pick(
            lang,
            "configuration was saved, but the running daemon did not reload it"@,
            "配置已保存，但正在运行的 daemon 未能重新加载配置"@,
        ),
        Notice::PreparingConfig => pick(lang, "Preparing config directory"@, "正在准备配置目录"@),
        Notice::PreparingData => pick(lang, "Preparing data directory"@, "正在准备数据目录"@),
        Notice::PrintHelp => pick(lang, "Print help"@, "显示帮助"@),
        Notice::PrintVersion => pick(lang, "Print version"@, "显示版本"@),
        Notice::QqEnabled => pick(
            lang,
            "Tencent QQ is enabled; run `laozhou daemon start` to begin listening."@,
            "腾讯 QQ 已启用；执行 `laozhou daemon start` 后开始监听。"@,
        ),
        Notice::ReloadTimedOut => pick(
            lang,
            "timed out waiting for Laozhou daemon to reload configuration"@,
            "等待 Laozhou daemon 重新加载配置超时"@,
        ),
        Notice::ReplyFinished => pick(lang, "Laozhou finished replying"@, "Laozhou 回复完成"@),
        Notice::SelectSession => pick(lang, "Select session"@, "选择会话"@),
        Notice::SessionModel => pick(lang, "session model"@, "当前会话模型"@),
        Notice::SkillDisabled => pick(lang, "disabled skill"@, "已禁用 skill"@),
        Notice::SkillEnabled => pick(lang, "enabled skill"@, "已启用 skill"@),
        Notice::SkillRemoved => pick(lang, "removed skill"@, "已移除 skill"@),
        Notice::SkillsPruned => pick(lang, "pruned skills"@, "已清理 skills"@),
        Notice::SpacePressed => pick(lang, "space pressed"@, "已按空格"@),
        Notice::Speaking => pick(lang, "speaking..."@, "正在说话..."@),
        Notice::Tip => pick(
            lang,
            "Tip: run without arguments to enter the REPL; pass MESSAGE to send one chat turn. Set the language in the configuration UI; MIYU_LANG is a temporary override."@,
            "提示：不带参数进入 REPL；直接输入消息会发送一次对话。可在配置界面设置语言，MIYU_LANG 可临时覆盖。"@,
        ),
        Notice::VariantsUpdated => pick(lang, "thinking variants updated"@, "已更新思考档位"@),
        Notice::WaitingOnYou => pick(lang, "Laozhou is waiting on you"@, "Laozhou 在等你回答"@),
        Notice::WebPassword => pick(lang, "WebUI password: "@, "WebUI 密码："@),
        Notice::WipeEverything => pick(lang, "wipe everything?"@, "确认全部抹掉？"@),
        Notice::WipeNeedsTerminal => pick(
            lang,
            "wipe needs a terminal to confirm; pass --yes to run it unattended"@,
            "wipe 需要在终端确认；非交互场景请加 --yes"@,
        ),
        Notice::WorkspaceUnbound => pick(lang, "workspace unbound"@, "已解绑工作目录"@),
        Notice::WritingConfig => pick(lang, "Writing default config"@, "正在写入默认配置"@),
        Notice::You => pick(lang, "You:"@, "你："@),
    }
}

pub fn notice(lang: Lang, which: Notice) -> (r: &'static str)
    ensures
        r@ == notice_text(lang, which),
{
    match which {
        Notice::About => t(lang, "Laozhou CLI AI Agent", "Laozhou 命令行 AI 助手"),
        Notice::Cancelled => t(lang, "cancelled", "已取消"),
        Notice::ConfigReloaded => t(lang, "configuration reloaded", "配置已重新加载"),
        Notice::ConfigValid => t(lang, "config is valid", "配置有效"),
        Notice::CreatingState => t(lang, "Creating state files", "正在创建状态文件"),
        Notice::DaemonIsStopped => t(lang, "Laozhou daemon: stopped", "Laozhou daemon：已停止"),
        Notice::DaemonNotRunning => t(lang, "Laozhou daemon is not running", "Laozhou daemon 未运行"),
        Notice::DaemonStopped => t(lang, "Laozhou daemon stopped", "Laozhou daemon 已停止"),
        Notice::DeleteSession => t(
            lang,
            "delete this session and all of its history?",
            "确认删除该会话及其全部历史？",
        ),
        Notice::HowToCall => t(
            lang,
            "laozhou [OPTIONS] [MESSAGE]... [COMMAND]",
            "laozhou [选项] [消息]... [命令]",
        ),
        Notice::ImportingKnowledge => t(lang, "Importing default knowledge base", "正在导入默认知识库"),
        Notice::KnowledgeSkipped => t(lang, "default knowledge base import skipped", "默认知识库导入已跳过"),
        Notice::KnowledgeUpdated => t(lang, "updated default knowledge base", "已更新默认知识库"),
        Notice::ModelsLoading => t(
            lang,
            "model metadata is still loading; try /variant again shortly",
            "模型元数据仍在加载，请稍后重试 /variant",
        ),
        Notice::ModelsNotLoaded => t(lang, "failed to load model metadata", "无法加载模型元数据"),
        Notice::NoLogging => t(lang, "warning: diagnostic logging is unavailable", "警告：诊断日志不可用"),
        Notice::NoShellHooks => t(
            lang,
            "no installed Laozhou shell hooks found",
            "未找到已安装的 Laozhou shell hook",
        ),
        Notice::NoToolImage => t(lang, "Could not display tool image", "工具图片显示失败"),
        Notice::NotReloaded => t(
            lang,
            "configuration was saved, but the running daemon did not reload it",
            "配置已保存，但正在运行的 daemon 未能重新加载配置",
        ),
        Notice::PreparingConfig => t(lang, "Preparing config directory", "正在准备配置目录"),
        Notice::PreparingData => t(lang, "Preparing data directory", "正在准备数据目录"),
        Notice::PrintHelp => t(lang, "Print help", "显示帮助"),
        Notice::PrintVersion => t(lang, "Print version", "显示版本"),
        Notice::QqEnabled => t(
            lang,
            "Tencent QQ is enabled; run `laozhou daemon start` to begin listening.",
            "腾讯 QQ 已启用；执行 `laozhou daemon start` 后开始监听。",
        ),
        Notice::ReloadTimedOut => t(
            lang,
            "timed out waiting for Laozhou daemon to reload configuration",
            "等待 Laozhou daemon 重新加载配置超时",
        ),
        Notice::ReplyFinished => t(lang, "Laozhou finished replying", "Laozhou 回复完成"),
        Notice::SelectSession => t(lang, "Select session", "选择会话"),
        Notice::SessionModel => t(lang, "session model", "当前会话模型"),
        Notice::SkillDisabled => t(lang, "disabled skill", "已禁用 skill"),
        Notice::SkillEnabled => t(lang, "enabled skill", "已启用 skill"),
        Notice::SkillRemoved => t(lang, "removed skill", "已移除 skill"),
        Notice::SkillsPruned => t(lang, "pruned skills", "已清理 skills"),
        Notice::SpacePressed => t(lang, "space pressed", "已按空格"),
        Notice::Speaking => t(lang, "speaking...", "正在说话..."),
        Notice::Tip => t(
            lang,
            "Tip: run without arguments to enter the REPL; pass MESSAGE to send one chat turn. Set the language in the configuration UI; MIYU_LANG is a temporary override.",
            "提示：不带参数进入 REPL；直接输入消息会发送一次对话。可在配置界面设置语言，MIYU_LANG 可临时覆盖。",
        ),
        Notice::VariantsUpdated => t(lang, "thinking variants updated", "已更新思考档位"),
        Notice::WaitingOnYou => t(lang, "Laozhou is waiting on you", "Laozhou 在等你回答"),
        Notice::WebPassword => t(lang, "WebUI password: ", "WebUI 密码："),
        Notice::WipeEverything => t(lang, "wipe everything?", "确认全部抹掉？"),
        Notice::WipeNeedsTerminal => t(
            lang,
            "wipe needs a terminal to confirm; pass --yes to run it unattended",
            "wipe 需要在终端确认；非交互场景请加 --yes",
        ),
        Notice::WorkspaceUnbound => t(lang, "workspace unbound", "已解绑工作目录"),
        Notice::WritingConfig => t(lang, "Writing default config", "正在写入默认配置"),
        Notice::You => t(lang, "You:", "你："),
    }
}

} // verus!
