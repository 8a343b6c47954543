//! Advisory messages: whenever a policy overrides what the user asked for,
//! a short explanation is written to the error stream. The exact lines are
//! built here, so their content is part of the verified contract; the
//! caller only prints them.

use vstd::prelude::*;

verus! {

/// A policy override: the invocation as the user gave it, and the
/// invocation as the policy enforces it.
pub struct Advisory {
    pub original: String,
    pub enforced: String,
}

impl View for Advisory {
    type V = (Seq<char>, Seq<char>);

    open spec fn view(&self) -> (Seq<char>, Seq<char>) {
        (self.original@, self.enforced@)
    }
}

impl DeepView for Advisory {
    type V = (Seq<char>, Seq<char>);

    open spec fn deep_view(&self) -> (Seq<char>, Seq<char>) {
        self@
    }
}

impl Advisory {
    /// Build an advisory from its two parts.
    pub fn new(original: String, enforced: String) -> (r: Advisory)
        ensures
            r@ == (original@, enforced@),
    {
        Advisory { original, enforced }
    }
}

/// The fixed-width separator line that brackets every advisory.
pub open spec fn separator_line() -> Seq<char> {
    "━━━━━━━━━━━━━━━━━━━━━━━━━━━━━━━━━━━━━━━━━━━━━━━━━━━━━━━━━━"@
}

/// The lines announcing that piped input was saved to `path`.
pub open spec fn file_saved_lines_spec(path: Seq<char>) -> Seq<Seq<char>> {
    seq![
        separator_line(),
        "📋 [Cursor 强制最佳实践] 管道输入已自动保存"@,
        "📁 文件位置: "@ + path,
        "💡 用途: 避免重复运行耗时命令，可直接读取此文件"@,
        separator_line(),
    ]
}

/// The lines announcing that `original` was not enough and was enforced to
/// `enforced`.
pub open spec fn enforcement_lines_spec(original: Seq<char>, enforced: Seq<char>) -> Seq<
    Seq<char>,
> {
    seq![
        separator_line(),
        "⚠️  [Cursor 强制最佳实践] "@ + original + " 参数不足，已强制改为 "@ + enforced,
        "💡 这样可以提供足够的信息，避免重复运行命令"@,
        separator_line(),
    ]
}

/// Build the message that names where piped input was saved, one line per
/// entry.
pub fn file_saved_lines(path: &str) -> (r: Vec<String>)
    ensures
        r.deep_view() == file_saved_lines_spec(path@),
{
    let mut r: Vec<String> = Vec::new();
    r.push(String::from_str("━━━━━━━━━━━━━━━━━━━━━━━━━━━━━━━━━━━━━━━━━━━━━━━━━━━━━━━━━━"));
    r.push(String::from_str("📋 [Cursor 强制最佳实践] 管道输入已自动保存"));
    let mut located = String::from_str("📁 文件位置: ");
    located.append(path);
    r.push(located);
    r.push(String::from_str("💡 用途: 避免重复运行耗时命令，可直接读取此文件"));
    r.push(String::from_str("━━━━━━━━━━━━━━━━━━━━━━━━━━━━━━━━━━━━━━━━━━━━━━━━━━━━━━━━━━"));
    proof {
        assert(r.deep_view() =~= file_saved_lines_spec(path@));
    }
    r
}

/// Build the message shown for one policy override, one line per entry.
pub fn enforcement_lines(advisory: &Advisory) -> (r: Vec<String>)
    ensures
        r.deep_view() == enforcement_lines_spec(advisory.original@, advisory.enforced@),
{
    let mut r: Vec<String> = Vec::new();
    r.push(String::from_str("━━━━━━━━━━━━━━━━━━━━━━━━━━━━━━━━━━━━━━━━━━━━━━━━━━━━━━━━━━"));
    let mut changed = String::from_str("⚠️  [Cursor 强制最佳实践] ");
    changed.append(advisory.original.as_str());
    changed.append(" 参数不足，已强制改为 ");
    changed.append(advisory.enforced.as_str());
    r.push(changed);
    r.push(String::from_str("💡 这样可以提供足够的信息，避免重复运行命令"));
    r.push(String::from_str("━━━━━━━━━━━━━━━━━━━━━━━━━━━━━━━━━━━━━━━━━━━━━━━━━━━━━━━━━━"));
    proof {
        assert(r.deep_view() =~= enforcement_lines_spec(advisory.original@, advisory.enforced@));
    }
    r
}

} // verus!
