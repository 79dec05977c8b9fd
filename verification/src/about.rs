//! The texts of the command line's own help, by command and argument.
use crate::jobs::opt_text;
use crate::lang::{pick, t, Lang};
use crate::text::same;
use vstd::prelude::*;
use vstd::string::*;

verus! {

/// What is said of a command, or of an argument of it.
#[derive(Clone, Copy, Debug)]
pub struct HelpText {
    /// The words that lead to the command; none for the program itself.
    pub command: &'static str,
    /// The argument; empty for the command as a whole.
    pub argument: &'static str,
    pub en: &'static str,
    pub zh: &'static str,
}

/// The same as sequences.
pub struct Help {
    pub command: Seq<char>,
    pub argument: Seq<char>,
    pub en: Seq<char>,
    pub zh: Seq<char>,
}

pub open spec fn help_of(text: HelpText) -> Help {
    Help { command: text.command@, argument: text.argument@, en: text.en@, zh: text.zh@ }
}

pub open spec fn helps_of(v: Seq<HelpText>) -> Seq<Help> {
    v.map_values(|text: HelpText| help_of(text))
}

pub open spec fn help(command: &str, argument: &str, en: &str, zh: &str) -> Help {
    Help { command: command@, argument: argument@, en: en@, zh: zh@ }
}

fn add_help(
    list: &mut Vec<HelpText>,
    command: &'static str,
    argument: &'static str,
    en: &'static str,
    zh: &'static str,
)
    ensures
        helps_of(final(list)@) == helps_of(old(list)@).push(help(command, argument, en, zh)),
{
    let ghost before = list@;
    let text = HelpText { command, argument, en, zh };
    list.push(text);
    assert(helps_of(list@) =~= helps_of(before).push(help_of(text)));
}

/// The options and the message.
pub open spec fn top_level_help() -> Seq<Help> {
    seq![
        help("", "plan", "Run in read-only planning mode", "使用只读计划模式运行"),
        help(
            "",
            "debug",
            "Write detailed diagnostics to the Laozhou log directory",
            "将详细诊断信息写入 Laozhou 日志目录",
        ),
        help(
            "",
            "stdout",
            "Plain output mode (no colors, no TUI); pipe-friendly for stdout redirection",
            "纯文本输出模式（无颜色、无 TUI）；适合管道重定向",
        ),
        help(
            "",
            "continue_session",
            "Send this one-shot message to the terminal session instead of a throwaway one",
            "把这条一次性消息发进终端会话，而不是用完即弃的临时会话",
        ),
        help(
            "",
            "message",
            "Message to send; omitted to enter REPL",
            "要发送的消息；省略则进入 REPL",
        ),
    ]
}

fn top_level_texts() -> (r: Vec<HelpText>)
    ensures
        helps_of(r@) == top_level_help(),
{
    let mut list: Vec<HelpText> = Vec::new();
    assert(helps_of(list@) =~= Seq::empty());
    add_help(
        &mut list,
        "",
        "plan",
        "Run in read-only planning mode",
        "使用只读计划模式运行",
    );
    add_help(
        &mut list,
        "",
        "debug",
        "Write detailed diagnostics to the Laozhou log directory",
        "将详细诊断信息写入 Laozhou 日志目录",
    );
    add_help(
        &mut list,
        "",
        "stdout",
        "Plain output mode (no colors, no TUI); pipe-friendly for stdout redirection",
        "纯文本输出模式（无颜色、无 TUI）；适合管道重定向",
    );
    add_help(
        &mut list,
        "",
        "continue_session",
        "Send this one-shot message to the terminal session instead of a throwaway one",
        "把这条一次性消息发进终端会话，而不是用完即弃的临时会话",
    );
    add_help(
        &mut list,
        "",
        "message",
        "Message to send; omitted to enter REPL",
        "要发送的消息；省略则进入 REPL",
    );
    assert(helps_of(list@) =~= top_level_help());
    list
}

/// The subcommands.
pub open spec fn subcommands_help() -> Seq<Help> {
    seq![
        help("ask", "", "Send one message to the assistant", "向助手发送一条消息"),
        help(
            "init",
            "",
            "Create default config and state files; use <shell>-init for shell hooks",
            "创建默认配置和状态文件；Shell 集成请使用对应的 <shell>-init 命令",
        ),
        help(
            "paths",
            "",
            "Show app config, data, and cache paths",
            "显示应用配置、数据和缓存路径",
        ),
        help("config", "", "Open or manage configuration", "打开或管理配置"),
        help(
            "reload",
            "",
            "Reload configuration in the running Laozhou daemon",
            "在运行中的 Laozhou daemon 内重新加载配置",
        ),
        help(
            "models",
            "",
            "Switch the current session's model",
            "切换当前会话使用的模型",
        ),
        help(
            "list-models",
            "",
            "List the global model pool with indexes",
            "列出全局模型池并编号",
        ),
        help("variant", "", "View or switch thinking level", "查看或切换思考档位"),
        help(
            "fish-init",
            "",
            "Integrate with fish so you can chat in natural language directly in the terminal",
            "集成到 fish，集成后可在终端直接使用自然语言交流。",
        ),
        help(
            "bash-init",
            "",
            "Integrate with bash so you can chat in natural language directly in the terminal",
            "集成到 bash，集成后可在终端直接使用自然语言交流。",
        ),
        help(
            "zsh-init",
            "",
            "Integrate with zsh so you can chat in natural language directly in the terminal",
            "集成到 zsh，集成后可在终端直接使用自然语言交流。",
        ),
        help(
            "remove-shell-hook",
            "",
            "Safely remove installed Laozhou shell hooks",
            "安全删除已安装的 Laozhou shell hook",
        ),
        help("history", "", "Show conversation history", "显示会话历史"),
        help(
            "pop",
            "",
            "Move conversation turns out of active context",
            "将对话轮次移出当前上下文",
        ),
        help("kb", "", "Manage local knowledge base", "管理本地知识库"),
        help(
            "update-default-kb",
            "",
            "Update Laozhou default knowledge base",
            "更新 Laozhou 默认知识库",
        ),
        help("memory", "", "Inspect or edit assistant memory", "查看或编辑助手记忆"),
        help("skills", "", "Manage assistant skills", "管理助手 skills"),
        help("reset", "", "Start the current conversation over", "重新开始当前会话"),
        help(
            "wipe",
            "",
            "Erase memory, all conversations, group contexts and generated skills",
            "抹掉记忆、所有会话内容、群聊上下文和自动技能",
        ),
        help("new", "", "Create a new session and switch to it", "创建新会话并切换过去"),
        help(
            "session",
            "",
            "List sessions, or switch to one (Ctrl+D deletes in the picker)",
            "列出会话，或切换到指定会话（菜单内 Ctrl+D 删除）",
        ),
        help("rename", "", "Rename the current session", "重命名当前会话"),
        help("archive", "", "Archive the current session", "归档当前会话"),
        help(
            "delete",
            "",
            "Delete a session (current by default)",
            "删除会话（默认当前会话）",
        ),
        help(
            "workspace",
            "",
            "Show, bind, or unbind the session workspace",
            "查看、绑定或解绑会话工作目录",
        ),
        help("web", "", "Open the local Laozhou WebUI", "访问本地 Laozhou WebUI"),
        help(
            "daemon",
            "",
            "Manage the unified Laozhou background service",
            "管理 Laozhou 统一后台服务",
        ),
        help(
            "export",
            "",
            "Pack this installation into a portable archive",
            "把当前安装打包成可移植归档",
        ),
        help(
            "import",
            "",
            "Restore an installation from an exported archive",
            "从导出的归档恢复安装",
        ),
    ]
}

fn subcommands_texts() -> (r: Vec<HelpText>)
    ensures
        helps_of(r@) == subcommands_help(),
{
    let mut list: Vec<HelpText> = Vec::new();
    assert(helps_of(list@) =~= Seq::empty());
    add_help(
        &mut list,
        "ask",
        "",
        "Send one message to the assistant",
        "向助手发送一条消息",
    );
    add_help(
        &mut list,
        "init",
        "",
        "Create default config and state files; use <shell>-init for shell hooks",
        "创建默认配置和状态文件；Shell 集成请使用对应的 <shell>-init 命令",
    );
    add_help(
        &mut list,
        "paths",
        "",
        "Show app config, data, and cache paths",
        "显示应用配置、数据和缓存路径",
    );
    add_help(&mut list, "config", "", "Open or manage configuration", "打开或管理配置");
    add_help(
        &mut list,
        "reload",
        "",
        "Reload configuration in the running Laozhou daemon",
        "在运行中的 Laozhou daemon 内重新加载配置",
    );
    add_help(
        &mut list,
        "models",
        "",
        "Switch the current session's model",
        "切换当前会话使用的模型",
    );
    add_help(
        &mut list,
        "list-models",
        "",
        "List the global model pool with indexes",
        "列出全局模型池并编号",
    );
    add_help(
        &mut list,
        "variant",
        "",
        "View or switch thinking level",
        "查看或切换思考档位",
    );
    add_help(
        &mut list,
        "fish-init",
        "",
        "Integrate with fish so you can chat in natural language directly in the terminal",
        "集成到 fish，集成后可在终端直接使用自然语言交流。",
    );
    add_help(
        &mut list,
        "bash-init",
        "",
        "Integrate with bash so you can chat in natural language directly in the terminal",
        "集成到 bash，集成后可在终端直接使用自然语言交流。",
    );
    add_help(
        &mut list,
        "zsh-init",
        "",
        "Integrate with zsh so you can chat in natural language directly in the terminal",
        "集成到 zsh，集成后可在终端直接使用自然语言交流。",
    );
    add_help(
        &mut list,
        "remove-shell-hook",
        "",
        "Safely remove installed Laozhou shell hooks",
        "安全删除已安装的 Laozhou shell hook",
    );
    add_help(&mut list, "history", "", "Show conversation history", "显示会话历史");
    add_help(
        &mut list,
        "pop",
        "",
        "Move conversation turns out of active context",
        "将对话轮次移出当前上下文",
    );
    add_help(&mut list, "kb", "", "Manage local knowledge base", "管理本地知识库");
    add_help(
        &mut list,
        "update-default-kb",
        "",
        "Update Laozhou default knowledge base",
        "更新 Laozhou 默认知识库",
    );
    add_help(
        &mut list,
        "memory",
        "",
        "Inspect or edit assistant memory",
        "查看或编辑助手记忆",
    );
    add_help(&mut list, "skills", "", "Manage assistant skills", "管理助手 skills");
    add_help(
        &mut list,
        "reset",
        "",
        "Start the current conversation over",
        "重新开始当前会话",
    );
    add_help(
        &mut list,
        "wipe",
        "",
        "Erase memory, all conversations, group contexts and generated skills",
        "抹掉记忆、所有会话内容、群聊上下文和自动技能",
    );
    add_help(
        &mut list,
        "new",
        "",
        "Create a new session and switch to it",
        "创建新会话并切换过去",
    );
    add_help(
        &mut list,
        "session",
        "",
        "List sessions, or switch to one (Ctrl+D deletes in the picker)",
        "列出会话，或切换到指定会话（菜单内 Ctrl+D 删除）",
    );
    add_help(&mut list, "rename", "", "Rename the current session", "重命名当前会话");
    add_help(&mut list, "archive", "", "Archive the current session", "归档当前会话");
    add_help(
        &mut list,
        "delete",
        "",
        "Delete a session (current by default)",
        "删除会话（默认当前会话）",
    );
    add_help(
        &mut list,
        "workspace",
        "",
        "Show, bind, or unbind the session workspace",
        "查看、绑定或解绑会话工作目录",
    );
    add_help(&mut list, "web", "", "Open the local Laozhou WebUI", "访问本地 Laozhou WebUI");
    add_help(
        &mut list,
        "daemon",
        "",
        "Manage the unified Laozhou background service",
        "管理 Laozhou 统一后台服务",
    );
    add_help(
        &mut list,
        "export",
        "",
        "Pack this installation into a portable archive",
        "把当前安装打包成可移植归档",
    );
    add_help(
        &mut list,
        "import",
        "",
        "Restore an installation from an exported archive",
        "从导出的归档恢复安装",
    );
    assert(helps_of(list@) =~= subcommands_help());
    list
}

/// The arguments of the subcommands.
pub open spec fn arguments_help() -> Seq<Help> {
    seq![
        help("ask", "message", "Message to send", "要发送的消息"),
        help(
            "models",
            "target",
            "List index, provider/model, or 'default' to follow the global pool",
            "模型列表序号、供应商/模型名，或 default 恢复跟随全局模型池",
        ),
        help(
            "variant",
            "name",
            "Thinking level to select; omit to choose interactively",
            "要选择的思考档位；省略则进入交互选择",
        ),
        help("history", "limit", "Number of history entries to show", "显示的历史条数"),
        help("history", "raw", "Print raw JSONL entries", "输出原始 JSONL 条目"),
        help("history", "no_thinking", "Hide stored reasoning", "隐藏已保存的思考内容"),
        help(
            "pop",
            "count",
            "Number of oldest turns to pop; omit to select interactively",
            "要弹出的最旧轮次数；省略则进入交互多选",
        ),
        help("web", "port", "Local TCP port", "本地 TCP 端口"),
        help(
            "web",
            "password",
            "Prompt securely for a required password",
            "安全输入所需的访问密码",
        ),
        help(
            "web",
            "password_file",
            "Read the WebUI password from a file",
            "从文件读取 WebUI 访问密码",
        ),
        help(
            "export",
            "output",
            "Archive path to write; omit to name it after this host and time",
            "要写入的归档路径；省略则按主机名与时间自动命名",
        ),
        help(
            "export",
            "all",
            "Include everything portable, index and platform history included",
            "包含全部可移植数据，含向量索引与平台历史",
        ),
        help(
            "export",
            "index",
            "Include the knowledge-base vector index (large; rebuildable with `laozhou kb embed`)",
            "包含知识库向量索引（很大；可用 laozhou kb embed 重建）",
        ),
        help(
            "export",
            "platforms",
            "Include chat-platform history",
            "包含通讯平台的聊天历史",
        ),
        help(
            "export",
            "no_secrets",
            "Blank out API keys and tokens (you must refill them after importing)",
            "清空 API key 与访问令牌（导入后需要自行补填）",
        ),
        help(
            "export",
            "dry_run",
            "Print what would be packed without writing an archive",
            "只打印将要打包的内容，不实际写归档",
        ),
        help("export", "force", "Overwrite an existing archive", "覆盖已存在的归档文件"),
        help(
            "import",
            "archive",
            "Archive produced by `laozhou export`",
            "laozhou export 生成的归档",
        ),
        help(
            "import",
            "force",
            "Overwrite existing data (the current installation is backed up first)",
            "覆盖已有数据（覆盖前会先备份当前安装）",
        ),
    ]
}

fn arguments_texts() -> (r: Vec<HelpText>)
    ensures
        helps_of(r@) == arguments_help(),
{
    let mut list: Vec<HelpText> = Vec::new();
    assert(helps_of(list@) =~= Seq::empty());
    add_help(&mut list, "ask", "message", "Message to send", "要发送的消息");
    add_help(
        &mut list,
        "models",
        "target",
        "List index, provider/model, or 'default' to follow the global pool",
        "模型列表序号、供应商/模型名，或 default 恢复跟随全局模型池",
    );
    add_help(
        &mut list,
        "variant",
        "name",
        "Thinking level to select; omit to choose interactively",
        "要选择的思考档位；省略则进入交互选择",
    );
    add_help(
        &mut list,
        "history",
        "limit",
        "Number of history entries to show",
        "显示的历史条数",
    );
    add_help(&mut list, "history", "raw", "Print raw JSONL entries", "输出原始 JSONL 条目");
    add_help(
        &mut list,
        "history",
        "no_thinking",
        "Hide stored reasoning",
        "隐藏已保存的思考内容",
    );
    add_help(
        &mut list,
        "pop",
        "count",
        "Number of oldest turns to pop; omit to select interactively",
        "要弹出的最旧轮次数；省略则进入交互多选",
    );
    add_help(&mut list, "web", "port", "Local TCP port", "本地 TCP 端口");
    add_help(
        &mut list,
        "web",
        "password",
        "Prompt securely for a required password",
        "安全输入所需的访问密码",
    );
    add_help(
        &mut list,
        "web",
        "password_file",
        "Read the WebUI password from a file",
        "从文件读取 WebUI 访问密码",
    );
    add_help(
        &mut list,
        "export",
        "output",
        "Archive path to write; omit to name it after this host and time",
        "要写入的归档路径；省略则按主机名与时间自动命名",
    );
    add_help(
        &mut list,
        "export",
        "all",
        "Include everything portable, index and platform history included",
        "包含全部可移植数据，含向量索引与平台历史",
    );
    add_help(
        &mut list,
        "export",
        "index",
        "Include the knowledge-base vector index (large; rebuildable with `laozhou kb embed`)",
        "包含知识库向量索引（很大；可用 laozhou kb embed 重建）",
    );
    add_help(
        &mut list,
        "export",
        "platforms",
        "Include chat-platform history",
        "包含通讯平台的聊天历史",
    );
    add_help(
        &mut list,
        "export",
        "no_secrets",
        "Blank out API keys and tokens (you must refill them after importing)",
        "清空 API key 与访问令牌（导入后需要自行补填）",
    );
    add_help(
        &mut list,
        "export",
        "dry_run",
        "Print what would be packed without writing an archive",
        "只打印将要打包的内容，不实际写归档",
    );
    add_help(
        &mut list,
        "export",
        "force",
        "Overwrite an existing archive",
        "覆盖已存在的归档文件",
    );
    add_help(
        &mut list,
        "import",
        "archive",
        "Archive produced by `laozhou export`",
        "laozhou export 生成的归档",
    );
    add_help(
        &mut list,
        "import",
        "force",
        "Overwrite existing data (the current installation is backed up first)",
        "覆盖已有数据（覆盖前会先备份当前安装）",
    );
    assert(helps_of(list@) =~= arguments_help());
    list
}

/// The commands about configuration and the daemon.
pub open spec fn service_help() -> Seq<Help> {
    seq![
        help("config validate", "", "Validate configuration", "校验配置"),
        help("config paths", "", "Show configuration paths", "显示配置路径"),
        help(
            "daemon start",
            "",
            "Start all configured Laozhou interfaces",
            "启动所有已配置的 Laozhou 接口",
        ),
        help(
            "daemon stop",
            "",
            "Stop the Laozhou background service",
            "停止 Laozhou 后台服务",
        ),
        help(
            "daemon restart",
            "",
            "Restart the Laozhou background service",
            "重启 Laozhou 后台服务",
        ),
        help(
            "daemon status",
            "",
            "Show daemon and interface status",
            "显示 daemon 与接口状态",
        ),
        help("daemon logs", "", "Follow daemon logs", "持续查看 daemon 日志"),
        help("daemon", "port", "WebUI TCP port", "WebUI TCP 端口"),
        help(
            "daemon logs",
            "lines",
            "Print only the most recent N lines and exit",
            "仅输出最近 N 行后退出",
        ),
    ]
}

fn service_texts() -> (r: Vec<HelpText>)
    ensures
        helps_of(r@) == service_help(),
{
    let mut list: Vec<HelpText> = Vec::new();
    assert(helps_of(list@) =~= Seq::empty());
    add_help(&mut list, "config validate", "", "Validate configuration", "校验配置");
    add_help(&mut list, "config paths", "", "Show configuration paths", "显示配置路径");
    add_help(
        &mut list,
        "daemon start",
        "",
        "Start all configured Laozhou interfaces",
        "启动所有已配置的 Laozhou 接口",
    );
    add_help(
        &mut list,
        "daemon stop",
        "",
        "Stop the Laozhou background service",
        "停止 Laozhou 后台服务",
    );
    add_help(
        &mut list,
        "daemon restart",
        "",
        "Restart the Laozhou background service",
        "重启 Laozhou 后台服务",
    );
    add_help(
        &mut list,
        "daemon status",
        "",
        "Show daemon and interface status",
        "显示 daemon 与接口状态",
    );
    add_help(&mut list, "daemon logs", "", "Follow daemon logs", "持续查看 daemon 日志");
    add_help(&mut list, "daemon", "port", "WebUI TCP port", "WebUI TCP 端口");
    add_help(
        &mut list,
        "daemon logs",
        "lines",
        "Print only the most recent N lines and exit",
        "仅输出最近 N 行后退出",
    );
    assert(helps_of(list@) =~= service_help());
    list
}

/// The commands about knowledge and memory.
pub open spec fn knowledge_help() -> Seq<Help> {
    seq![
        help("kb add", "", "Add a file or directory", "添加文件或目录"),
        help("kb list", "", "List indexed files", "列出已索引文件"),
        help("kb search", "", "Search knowledge base content", "搜索知识库内容"),
        help("kb find", "", "Find files by name", "按文件名查找文件"),
        help("kb read", "", "Read a knowledge base file", "读取知识库文件"),
        help("kb remove", "", "Remove a knowledge base file", "移除知识库文件"),
        help("kb reindex", "", "Rebuild keyword index on demand", "按需重建关键词索引"),
        help("kb stats", "", "Show knowledge base statistics", "显示知识库统计"),
        help("kb embed", "", "Manage semantic embeddings", "管理语义嵌入"),
        help("kb add", "path", "Path to add", "要添加的路径"),
        help(
            "kb add",
            "recursive",
            "Compatibility flag; directories are recursive by default",
            "兼容参数；目录默认递归导入",
        ),
        help("kb search", "query", "Search query", "搜索查询"),
        help("kb search", "limit", "Maximum results", "最大结果数"),
        help("kb find", "query", "Filename query", "文件名查询"),
        help("kb find", "limit", "Maximum results", "最大结果数"),
        help("kb read", "file", "Knowledge base file name", "知识库文件名"),
        help("kb read", "start", "Starting line", "起始行"),
        help("kb read", "lines", "Number of lines", "读取行数"),
        help("kb remove", "file", "File to remove", "要移除的文件"),
        help("memory stats", "", "Show memory statistics", "显示记忆统计"),
        help("memory reset", "", "Clear assistant memory", "清空助手记忆"),
        help("memory search", "", "Search memories", "搜索记忆"),
        help("memory remember", "", "Save a manual fact", "手动保存事实"),
        help(
            "memory reset",
            "include_skills",
            "Also remove generated skills",
            "同时移除自动生成的 skills",
        ),
        help("memory search", "query", "Search query", "搜索查询"),
        help("memory search", "limit", "Maximum results", "最大结果数"),
        help("memory search", "forgotten", "Include forgotten memories", "包含已遗忘记忆"),
        help("memory remember", "content", "Fact content", "事实内容"),
        help("memory remember", "source", "Source label", "来源标签"),
    ]
}

fn knowledge_texts() -> (r: Vec<HelpText>)
    ensures
        helps_of(r@) == knowledge_help(),
{
    let mut list: Vec<HelpText> = Vec::new();
    assert(helps_of(list@) =~= Seq::empty());
    add_help(&mut list, "kb add", "", "Add a file or directory", "添加文件或目录");
    add_help(&mut list, "kb list", "", "List indexed files", "列出已索引文件");
    add_help(&mut list, "kb search", "", "Search knowledge base content", "搜索知识库内容");
    add_help(&mut list, "kb find", "", "Find files by name", "按文件名查找文件");
    add_help(&mut list, "kb read", "", "Read a knowledge base file", "读取知识库文件");
    add_help(&mut list, "kb remove", "", "Remove a knowledge base file", "移除知识库文件");
    add_help(
        &mut list,
        "kb reindex",
        "",
        "Rebuild keyword index on demand",
        "按需重建关键词索引",
    );
    add_help(&mut list, "kb stats", "", "Show knowledge base statistics", "显示知识库统计");
    add_help(&mut list, "kb embed", "", "Manage semantic embeddings", "管理语义嵌入");
    add_help(&mut list, "kb add", "path", "Path to add", "要添加的路径");
    add_help(
        &mut list,
        "kb add",
        "recursive",
        "Compatibility flag; directories are recursive by default",
        "兼容参数；目录默认递归导入",
    );
    add_help(&mut list, "kb search", "query", "Search query", "搜索查询");
    add_help(&mut list, "kb search", "limit", "Maximum results", "最大结果数");
    add_help(&mut list, "kb find", "query", "Filename query", "文件名查询");
    add_help(&mut list, "kb find", "limit", "Maximum results", "最大结果数");
    add_help(&mut list, "kb read", "file", "Knowledge base file name", "知识库文件名");
    add_help(&mut list, "kb read", "start", "Starting line", "起始行");
    add_help(&mut list, "kb read", "lines", "Number of lines", "读取行数");
    add_help(&mut list, "kb remove", "file", "File to remove", "要移除的文件");
    add_help(&mut list, "memory stats", "", "Show memory statistics", "显示记忆统计");
    add_help(&mut list, "memory reset", "", "Clear assistant memory", "清空助手记忆");
    add_help(&mut list, "memory search", "", "Search memories", "搜索记忆");
    add_help(&mut list, "memory remember", "", "Save a manual fact", "手动保存事实");
    add_help(
        &mut list,
        "memory reset",
        "include_skills",
        "Also remove generated skills",
        "同时移除自动生成的 skills",
    );
    add_help(&mut list, "memory search", "query", "Search query", "搜索查询");
    add_help(&mut list, "memory search", "limit", "Maximum results", "最大结果数");
    add_help(
        &mut list,
        "memory search",
        "forgotten",
        "Include forgotten memories",
        "包含已遗忘记忆",
    );
    add_help(&mut list, "memory remember", "content", "Fact content", "事实内容");
    add_help(&mut list, "memory remember", "source", "Source label", "来源标签");
    assert(helps_of(list@) =~= knowledge_help());
    list
}

/// The commands about skills.
pub open spec fn skill_help() -> Seq<Help> {
    seq![
        help("skills list", "", "List skills", "列出 skills"),
        help("skills show", "", "Show a skill", "显示 skill"),
        help("skills enable", "", "Enable a skill", "启用 skill"),
        help("skills disable", "", "Disable a skill", "禁用 skill"),
        help("skills remove", "", "Remove a skill", "移除 skill"),
        help("skills stats", "", "Show skill statistics", "显示 skill 统计"),
        help(
            "skills prune",
            "",
            "Remove disabled generated skills",
            "清理已禁用的自动 skills",
        ),
        help("skills show", "name", "Skill name", "skill 名称"),
        help("skills enable", "name", "Skill name", "skill 名称"),
        help("skills disable", "name", "Skill name", "skill 名称"),
        help("skills remove", "name", "Skill name", "skill 名称"),
    ]
}

fn skill_texts() -> (r: Vec<HelpText>)
    ensures
        helps_of(r@) == skill_help(),
{
    let mut list: Vec<HelpText> = Vec::new();
    assert(helps_of(list@) =~= Seq::empty());
    add_help(&mut list, "skills list", "", "List skills", "列出 skills");
    add_help(&mut list, "skills show", "", "Show a skill", "显示 skill");
    add_help(&mut list, "skills enable", "", "Enable a skill", "启用 skill");
    add_help(&mut list, "skills disable", "", "Disable a skill", "禁用 skill");
    add_help(&mut list, "skills remove", "", "Remove a skill", "移除 skill");
    add_help(&mut list, "skills stats", "", "Show skill statistics", "显示 skill 统计");
    add_help(
        &mut list,
        "skills prune",
        "",
        "Remove disabled generated skills",
        "清理已禁用的自动 skills",
    );
    add_help(&mut list, "skills show", "name", "Skill name", "skill 名称");
    add_help(&mut list, "skills enable", "name", "Skill name", "skill 名称");
    add_help(&mut list, "skills disable", "name", "Skill name", "skill 名称");
    add_help(&mut list, "skills remove", "name", "Skill name", "skill 名称");
    assert(helps_of(list@) =~= skill_help());
    list
}

/// All of them.
pub open spec fn all_help() -> Seq<Help> {
    top_level_help() + subcommands_help() + arguments_help() + service_help() + knowledge_help() + skill_help()
}

/// The texts for the whole command line.
pub fn help_texts() -> (r: Vec<HelpText>)
    ensures
        helps_of(r@) == all_help(),
{
    let mut list: Vec<HelpText> = Vec::new();
    assert(helps_of(list@) =~= Seq::empty());
    add_helps(&mut list, top_level_texts());
    add_helps(&mut list, subcommands_texts());
    add_helps(&mut list, arguments_texts());
    add_helps(&mut list, service_texts());
    add_helps(&mut list, knowledge_texts());
    add_helps(&mut list, skill_texts());
    assert(helps_of(list@) =~= all_help());
    list
}

fn add_helps(list: &mut Vec<HelpText>, more: Vec<HelpText>)
    ensures
        helps_of(final(list)@) == helps_of(old(list)@) + helps_of(more@),
{
    let ghost before = list@;
    let ghost added = more@;
    let mut more = more;
    list.append(&mut more);
    assert(helps_of(list@) =~= helps_of(before) + helps_of(added));
}

/// The text for a command or an argument, where there is one.
pub open spec fn help_for(lang: Lang, command: Seq<char>, argument: Seq<char>, all: Seq<Help>) -> Option<
    Seq<char>,
>
    decreases all.len(),
{
    if all.len() == 0 {
        None
    } else if all[0].command == command && all[0].argument == argument {
        Some(pick(lang, all[0].en, all[0].zh))
    } else {
        help_for(lang, command, argument, all.skip(1))
    }
}

pub fn help_text(lang: Lang, command: &str, argument: &str) -> (r: Option<&'static str>)
    ensures
        opt_text(r) == help_for(lang, command@, argument@, all_help()),
{
    let all = help_texts();
    let n: usize = all.len();
    let ghost table = all_help();
    assert(helps_of(all@).len() == n);
    let mut i: usize = 0;
    assert(table.skip(0) =~= table);
    while i < n
        invariant
            i <= n,
            n == all@.len(),
            table == all_help(),
            helps_of(all@) == table,
            help_for(lang, command@, argument@, table) == help_for(
                lang,
                command@,
                argument@,
                table.skip(i as int),
            ),
        decreases n - i,
    {
        let text = all[i];
        assert(table.skip(i as int)[0] == help_of(text));
        assert(table.skip(i as int).skip(1) =~= table.skip(i as int + 1));
        if same(text.command, command) && same(text.argument, argument) {
            return Some(t(lang, text.en, text.zh));
        }
        i = i + 1;
    }
    None
}

/// A text is found where one of the list is for that command and argument, and is
/// the first of those in the language that is set.
pub proof fn law_help_is_found_by_command_and_argument(
    lang: Lang,
    command: Seq<char>,
    argument: Seq<char>,
    all: Seq<Help>,
    i: int,
)
    requires
        0 <= i < all.len(),
        forall|k: int|
            0 <= k < i ==> (#[trigger] all[k]).command != command || all[k].argument != argument,
    ensures
        all[i].command == command && all[i].argument == argument && lang is En ==> help_for(
            lang,
            command,
            argument,
            all,
        ) == Some(all[i].en),
        all[i].command == command && all[i].argument == argument && lang is Zh ==> help_for(
            lang,
            command,
            argument,
            all,
        ) == Some(all[i].zh),
        i + 1 == all.len() && !(all[i].command == command && all[i].argument == argument)
            ==> help_for(lang, command, argument, all) is None,
    decreases i,
{
    let rest = all.skip(1);
    if i > 0 {
        assert(all[0].command != command || all[0].argument != argument);
        assert forall|k: int| 0 <= k < i - 1 implies (#[trigger] rest[k]).command != command
            || rest[k].argument != argument by {
            assert(rest[k] == all[k + 1]);
        }
        assert(rest[i - 1] == all[i]);
        law_help_is_found_by_command_and_argument(lang, command, argument, rest, i - 1);
    } else if all.len() == 1 {
        assert(rest.len() == 0);
        assert(help_for(lang, command, argument, rest) is None);
    }
}

} // verus!
