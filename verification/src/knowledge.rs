//! The commands about the knowledge base and the memory: what is asked of the
//! stores, and what is printed of their answers.
use crate::args::{KbCommand, KbEmbedCommand, MemoryCommand};
use crate::lang::{pick, t, Lang};
use crate::notes::{counted_label, counted_label_text, join_message, labelled, labelled_text};
use crate::text::{decimal, decimal_text, join, joined, texts, trimmed};
use std::path::PathBuf;
use vstd::prelude::*;
use vstd::string::*;

verus! {

/// What is asked of the knowledge base.
#[derive(Debug)]
pub enum KbRequest {
    Add(PathBuf),
    List,
    /// By what the files hold.
    Search { query: String, limit: Option<usize> },
    /// By the names of the files.
    Find { query: String, limit: Option<usize> },
    Read { file: String, start: usize, lines: Option<usize> },
    Remove(String),
    Stats,
    Embed { quiet: bool },
}

/// What a command asks: the words of a query make one text, and the keyword
/// index, which is made when it is needed, asks for the files alone.
pub fn run_kb(command: KbCommand) -> (r: KbRequest)
    ensures
        match (command, r) {
            (KbCommand::Add(args), KbRequest::Add(path)) => path == args.path,
            (KbCommand::List, KbRequest::List) => true,
            (KbCommand::Search(args), KbRequest::Search { query, limit }) => query@ == joined(
                texts(args.query@),
                " "@,
            ) && limit == args.limit,
            (KbCommand::Find(args), KbRequest::Find { query, limit }) => query@ == joined(
                texts(args.query@),
                " "@,
            ) && limit == args.limit,
            (KbCommand::Read(args), KbRequest::Read { file, start, lines }) => file == args.file
                && start == args.start && lines == args.lines,
            (KbCommand::Remove(args), KbRequest::Remove(file)) => file == args.file,
            (KbCommand::Reindex, KbRequest::List) => true,
            (KbCommand::Stats, KbRequest::Stats) => true,
            (KbCommand::Embed(args), KbRequest::Embed { quiet }) => args.command matches
                KbEmbedCommand::Reindex(reindex) && quiet == reindex.quiet,
            _ => false,
        },
{
    match command {
        KbCommand::Add(args) => KbRequest::Add(args.path),
        KbCommand::List => KbRequest::List,
        KbCommand::Search(args) => KbRequest::Search {
            query: join(args.query.as_slice(), " "),
            limit: args.limit,
        },
        KbCommand::Find(args) => KbRequest::Find {
            query: join(args.query.as_slice(), " "),
            limit: args.limit,
        },
        KbCommand::Read(args) => KbRequest::Read {
            file: args.file,
            start: args.start,
            lines: args.lines,
        },
        KbCommand::Remove(args) => KbRequest::Remove(args.file),
        KbCommand::Reindex => KbRequest::List,
        KbCommand::Stats => KbRequest::Stats,
        KbCommand::Embed(args) => match args.command {
            KbEmbedCommand::Reindex(reindex) => KbRequest::Embed { quiet: reindex.quiet },
        },
    }
}

/// A file of the knowledge base.
#[derive(Debug)]
pub struct KbFile {
    pub name: String,
    pub size_bytes: u64,
}

/// What the knowledge base did or answered.
#[derive(Debug)]
pub enum KbAnswer {
    Added(Vec<String>),
    Listed(Vec<KbFile>),
    /// The files that the keyword index is made of.
    Indexed(usize),
    Text(String),
    Removed(String),
    /// It said what it did by itself.
    Done,
}

/// A file in the list.
pub open spec fn file_line(lang: Lang, file: KbFile) -> Seq<char> {
    file.name@ + "\t"@ + decimal(file.size_bytes as nat) + " "@ + pick(lang, "bytes"@, "字节"@)
}

/// The lines that are printed.
pub open spec fn kb_lines(lang: Lang, answer: KbAnswer) -> Seq<Seq<char>> {
    match answer {
        KbAnswer::Added(paths) => Seq::new(
            paths@.len(),
            |i: int| pick(lang, "added"@, "已添加"@) + " "@ + paths@[i]@,
        ),
        KbAnswer::Listed(files) => Seq::new(files@.len(), |i: int| file_line(lang, files@[i])),
        KbAnswer::Indexed(count) => seq![
            counted_label(
                pick(
                    lang,
                    "keyword index is rebuilt on demand; files tracked"@,
                    "关键词索引会按需重建；已跟踪文件数"@,
                ),
                count as u64,
            ),
        ],
        KbAnswer::Text(text) => seq![text@],
        KbAnswer::Removed(file) => seq![pick(lang, "removed"@, "已移除"@) + " "@ + file@],
        KbAnswer::Done => Seq::empty(),
    }
}

fn worded(word: &str, text: &str) -> (r: String)
    ensures
        r@ == word@ + " "@ + text@,
{
    crate::echo::enclosed(word, " ", text)
}

fn one_line(line: String) -> (r: Vec<String>)
    ensures
        texts(r@) == seq![line@],
{
    let mut out: Vec<String> = Vec::new();
    out.push(line);
    assert(texts(out@) =~= seq![line@]);
    out
}

fn added_lines(lang: Lang, paths: &Vec<String>) -> (r: Vec<String>)
    ensures
        texts(r@) == Seq::new(
            paths@.len(),
            |i: int| pick(lang, "added"@, "已添加"@) + " "@ + paths@[i]@,
        ),
{
    let mut out: Vec<String> = Vec::new();
    let mut i: usize = 0;
    while i < paths.len()
        invariant
            i <= paths@.len(),
            out@.len() == i,
            forall|k: int|
                0 <= k < i ==> (#[trigger] out@[k])@ == pick(lang, "added"@, "已添加"@) + " "@
                    + paths@[k]@,
        decreases paths@.len() - i,
    {
        out.push(worded(t(lang, "added", "已添加"), paths[i].as_str()));
        i = i + 1;
    }
    assert(texts(out@) =~= Seq::new(
        paths@.len(),
        |i: int| pick(lang, "added"@, "已添加"@) + " "@ + paths@[i]@,
    ));
    out
}

fn file_lines(lang: Lang, files: &Vec<KbFile>) -> (r: Vec<String>)
    ensures
        texts(r@) == Seq::new(files@.len(), |i: int| file_line(lang, files@[i])),
{
    let mut out: Vec<String> = Vec::new();
    let mut i: usize = 0;
    while i < files.len()
        invariant
            i <= files@.len(),
            out@.len() == i,
            forall|k: int| 0 <= k < i ==> (#[trigger] out@[k])@ == file_line(lang, files@[k]),
        decreases files@.len() - i,
    {
        let mut line = files[i].name.clone();
        line.append("\t");
        line.append(decimal_text(files[i].size_bytes).as_str());
        line.append(" ");
        line.append(t(lang, "bytes", "字节"));
        out.push(line);
        i = i + 1;
    }
    assert(texts(out@) =~= Seq::new(files@.len(), |i: int| file_line(lang, files@[i])));
    out
}

/// What is printed of an answer of the knowledge base.
pub fn kb_report(lang: Lang, answer: KbAnswer) -> (r: Vec<String>)
    ensures
        texts(r@) == kb_lines(lang, answer),
{
    match answer {
        KbAnswer::Added(paths) => added_lines(lang, &paths),
        KbAnswer::Listed(files) => file_lines(lang, &files),
        KbAnswer::Indexed(count) => one_line(
            counted_label_text(
                t(
                    lang,
                    "keyword index is rebuilt on demand; files tracked",
                    "关键词索引会按需重建；已跟踪文件数",
                ),
                count as u64,
            ),
        ),
        KbAnswer::Text(text) => one_line(text),
        KbAnswer::Removed(file) => one_line(
            worded(t(lang, "removed", "已移除"), file.as_str()),
        ),
        KbAnswer::Done => {
            let none: Vec<String> = Vec::new();
            assert(texts(none@) =~= Seq::empty());
            none
        },
    }
}

/// What is asked of the memory.
#[derive(Debug)]
pub enum MemoryRequest {
    Stats,
    Reset { include_skills: bool },
    Search { query: String, limit: usize, forgotten: bool },
    Remember { content: String, source: String },
}

/// What a command asks: the words make one text, and ten memories are searched
/// for unless another number is given.
pub fn run_memory(command: MemoryCommand) -> (r: MemoryRequest)
    ensures
        match (command, r) {
            (MemoryCommand::Stats, MemoryRequest::Stats) => true,
            (MemoryCommand::Reset(args), MemoryRequest::Reset { include_skills }) => include_skills
                == args.include_skills,
            (MemoryCommand::Search(args), MemoryRequest::Search { query, limit, forgotten }) => {
                &&& query@ == trimmed(joined(texts(args.query@), " "@))
                &&& limit == match args.limit {
                    Some(limit) => limit,
                    None => 10,
                }
                &&& forgotten == args.forgotten
            },
            (MemoryCommand::Remember(args), MemoryRequest::Remember { content, source }) => {
                &&& content@ == trimmed(joined(texts(args.content@), " "@))
                &&& source == args.source
            },
            _ => false,
        },
{
    match command {
        MemoryCommand::Stats => MemoryRequest::Stats,
        MemoryCommand::Reset(args) => MemoryRequest::Reset { include_skills: args.include_skills },
        MemoryCommand::Search(args) => MemoryRequest::Search {
            query: join_message(args.query),
            limit: match args.limit {
                Some(limit) => limit,
                None => 10,
            },
            forgotten: args.forgotten,
        },
        MemoryCommand::Remember(args) => MemoryRequest::Remember {
            content: join_message(args.content),
            source: args.source,
        },
    }
}

/// What the memory did or answered.
#[derive(Debug)]
pub enum MemoryAnswer {
    Text(String),
    Cleared,
    /// The fact is kept under this name.
    Remembered(String),
}

/// What is printed of an answer of the memory.
pub fn memory_report(lang: Lang, answer: MemoryAnswer) -> (r: String)
    ensures
        r@ == match answer {
            MemoryAnswer::Text(text) => text@,
            MemoryAnswer::Cleared => pick(lang, "cleared assistant memory"@, "已清空助手记忆"@),
            MemoryAnswer::Remembered(id) => labelled(
                pick(lang, "remembered fact"@, "已记住事实"@),
                id@,
            ),
        },
{
    match answer {
        MemoryAnswer::Text(text) => text,
        MemoryAnswer::Cleared => t(lang, "cleared assistant memory", "已清空助手记忆").to_owned(),
        MemoryAnswer::Remembered(id) => labelled_text(
            t(lang, "remembered fact", "已记住事实"),
            id.as_str(),
        ),
    }
}

/// Each command about the knowledge base asks for what it names, with the words of
/// a query as one text.
pub proof fn law_knowledge_commands_ask_for_their_own(command: KbCommand, r: KbRequest)
    requires
        call_ensures(run_kb, (command,), r),
    ensures
        command is Add ==> r is Add && r->Add_0 == command->Add_0.path,
        command is List || command is Reindex ==> r is List,
        command is Search ==> r is Search && r->Search_query@ == joined(
            texts(command->Search_0.query@),
            " "@,
        ) && r->Search_limit == command->Search_0.limit,
        command is Find ==> r is Find && r->Find_query@ == joined(
            texts(command->Find_0.query@),
            " "@,
        ) && r->Find_limit == command->Find_0.limit,
        command is Read ==> r is Read && r->file == command->Read_0.file && r->start
            == command->Read_0.start && r->lines == command->Read_0.lines,
        command is Remove ==> r is Remove && r->Remove_0 == command->Remove_0.file,
        command is Stats ==> r is Stats,
        command is Embed ==> r is Embed,
{
}

/// What the knowledge base answered is printed: a line for each file that was
/// added or is listed, and one for anything else.
pub proof fn law_knowledge_answers_are_printed(lang: Lang, answer: KbAnswer, r: Vec<String>, i: int)
    requires
        call_ensures(kb_report, (lang, answer), r),
    ensures
        answer matches KbAnswer::Added(paths) ==> r@.len() == paths@.len() && (0 <= i < paths@.len()
            ==> r@[i]@ == pick(lang, "added"@, "已添加"@) + " "@ + paths@[i]@),
        answer matches KbAnswer::Listed(files) ==> r@.len() == files@.len() && (0 <= i
            < files@.len() ==> r@[i]@ == files@[i].name@ + "\t"@ + decimal(
            files@[i].size_bytes as nat,
        ) + " "@ + pick(lang, "bytes"@, "字节"@)),
        answer matches KbAnswer::Text(text) ==> r@.len() == 1 && r@[0]@ == text@,
        answer matches KbAnswer::Removed(file) ==> r@.len() == 1 && r@[0]@ == pick(
            lang,
            "removed"@,
            "已移除"@,
        ) + " "@ + file@,
        answer is Indexed ==> r@.len() == 1,
        answer is Done ==> r@.len() == 0,
{
    assert(texts(r@).len() == r@.len());
    if 0 <= i < r@.len() {
        assert(texts(r@)[i] == r@[i]@);
    }
    if r@.len() > 0 {
        assert(texts(r@)[0] == r@[0]@);
    }
}

/// Each command about the memory asks for what it names; ten memories are searched
/// for unless another number is given.
pub proof fn law_memory_commands_ask_for_their_own(command: MemoryCommand, r: MemoryRequest)
    requires
        call_ensures(run_memory, (command,), r),
    ensures
        command is Stats ==> r is Stats,
        command is Reset ==> r is Reset && r->include_skills == command->Reset_0.include_skills,
        command is Search ==> r is Search && r->query@ == trimmed(
            joined(texts(command->Search_0.query@), " "@),
        ) && r->forgotten == command->Search_0.forgotten,
        command is Search && command->Search_0.limit is None ==> r->limit == 10,
        command is Search && command->Search_0.limit is Some ==> r->limit
            == command->Search_0.limit->0,
        command is Remember ==> r is Remember && r->content@ == trimmed(
            joined(texts(command->Remember_0.content@), " "@),
        ) && r->source == command->Remember_0.source,
{
}

/// What the memory answered is printed as it is, or by what was done.
pub proof fn law_memory_answers_are_printed(lang: Lang, answer: MemoryAnswer, r: String)
    requires
        call_ensures(memory_report, (lang, answer), r),
    ensures
        answer matches MemoryAnswer::Text(text) ==> r@ == text@,
        answer is Cleared ==> r@ == pick(lang, "cleared assistant memory"@, "已清空助手记忆"@),
        answer matches MemoryAnswer::Remembered(id) ==> r@ == pick(
            lang,
            "remembered fact"@,
            "已记住事实"@,
        ) + ": "@ + id@,
{
}

} // verus!
