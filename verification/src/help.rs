//! The help of the prompt.
use crate::commands::{command_order, help_line, repl_help_lines, ReplSlashCommand};
use crate::lang::{pick, t, Lang};
use crate::text::texts;
use vstd::prelude::*;
use vstd::string::*;

verus! {

/// The lines about the keys.
pub open spec fn key_lines(lang: Lang) -> Seq<Seq<char>> {
    seq![
        "  Tab         "@ + pick(
            lang,
            "cycle NORMAL/PLAN/CHAT, or complete slash commands"@,
            "循环切换 普通/计划/闲聊，或补全斜杠菜单"@,
        ),
        "  Enter       "@ + pick(lang, "send message"@, "发送消息"@),
        "  Shift+Enter "@ + pick(lang, "insert newline"@, "插入换行"@),
        "  Ctrl+J      "@ + pick(
            lang,
            "insert newline, same as Shift+Enter"@,
            "插入换行，与 Shift+Enter 相同"@,
        ),
        "  Ctrl+V      "@ + pick(
            lang,
            "paste image or text from clipboard"@,
            "从剪贴板粘贴图片或文本"@,
        ),
        "  Ctrl+L      "@ + pick(lang, "clear screen"@, "清屏"@),
        "  Up/Down     "@ + pick(lang, "browse input history"@, "切换输入历史"@),
        "  Esc Esc     "@ + pick(lang, "interrupt running reply"@, "中断当前回复"@),
        "  Ctrl+C      "@ + pick(
            lang,
            "clear the draft, else interrupt the reply, else stop background tasks, else exit"@,
            "先清空输入；输入为空则中断回复；再无回复则停止后台任务；都没有则退出"@,
        ),
        "  Ctrl+D      "@ + pick(lang, "exit"@, "退出"@),
    ]
}

fn key_line(key: &str, text: &str) -> (r: String)
    ensures
        r@ == key@ + text@,
{
    let mut r = key.to_owned();
    r.append(text);
    r
}

fn repl_key_lines(lang: Lang) -> (r: Vec<String>)
    ensures
        texts(r@) == key_lines(lang),
{
    let mut out: Vec<String> = Vec::new();
    out.push(
        key_line(
            "  Tab         ",
            t(
                lang,
                "cycle NORMAL/PLAN/CHAT, or complete slash commands",
                "循环切换 普通/计划/闲聊，或补全斜杠菜单",
            ),
        ),
    );
    out.push(key_line("  Enter       ", t(lang, "send message", "发送消息")));
    out.push(key_line("  Shift+Enter ", t(lang, "insert newline", "插入换行")));
    out.push(
        key_line(
            "  Ctrl+J      ",
            t(lang, "insert newline, same as Shift+Enter", "插入换行，与 Shift+Enter 相同"),
        ),
    );
    out.push(
        key_line(
            "  Ctrl+V      ",
            t(lang, "paste image or text from clipboard", "从剪贴板粘贴图片或文本"),
        ),
    );
    out.push(key_line("  Ctrl+L      ", t(lang, "clear screen", "清屏")));
    out.push(key_line("  Up/Down     ", t(lang, "browse input history", "切换输入历史")));
    out.push(key_line("  Esc Esc     ", t(lang, "interrupt running reply", "中断当前回复")));
    out.push(
        key_line(
            "  Ctrl+C      ",
            t(
                lang,
                "clear the draft, else interrupt the reply, else stop background tasks, else exit",
                "先清空输入；输入为空则中断回复；再无回复则停止后台任务；都没有则退出",
            ),
        ),
    );
    out.push(key_line("  Ctrl+D      ", t(lang, "exit", "退出")));
    assert(texts(out@) =~= key_lines(lang));
    out
}

/// The help: the commands, then the keys.
pub fn print_repl_help(lang: Lang) -> (r: Vec<String>)
    ensures
        texts(r@) == seq![pick(lang, "commands:"@, "命令:"@)] + command_order().map_values(
            |c: ReplSlashCommand| help_line(lang, c),
        ) + seq![pick(lang, "keys:"@, "快捷键:"@)] + key_lines(lang),
{
    let mut commands = repl_help_lines(lang);
    let mut keys = repl_key_lines(lang);
    let ghost shown = commands@;
    let ghost pressed = keys@;
    let mut out: Vec<String> = Vec::new();
    out.push(t(lang, "commands:", "命令:").to_owned());
    out.append(&mut commands);
    out.push(t(lang, "keys:", "快捷键:").to_owned());
    out.append(&mut keys);
    assert(texts(out@) =~= seq![pick(lang, "commands:"@, "命令:"@)] + texts(shown) + seq![
        pick(lang, "keys:"@, "快捷键:"@),
    ] + texts(pressed));
    out
}

/// The help tells every command and then every key, each on a line of its own.
pub proof fn law_help_tells_commands_and_keys(lang: Lang, r: Vec<String>)
    requires
        call_ensures(print_repl_help, (lang,), r),
    ensures
        r@.len() == 32,
        r@[0]@ == pick(lang, "commands:"@, "命令:"@),
        r@[21]@ == pick(lang, "keys:"@, "快捷键:"@),
        r@[23]@ == "  Enter       "@ + pick(lang, "send message"@, "发送消息"@),
        r@[31]@ == "  Ctrl+D      "@ + pick(lang, "exit"@, "退出"@),
{
    assert(command_order().len() == 20);
    assert(texts(r@).len() == r@.len());
    assert(texts(r@)[0] == r@[0]@);
    assert(texts(r@)[21] == r@[21]@);
    assert(texts(r@)[23] == r@[23]@);
    assert(texts(r@)[31] == r@[31]@);
}

} // verus!
