//! The system prompt, assembled from sections: a constant head (identity,
//! role, tools), then a dynamic part (environment, skills, memory). The last
//! assembly is cached under a key made of the context.

use vstd::prelude::*;

use crate::text::{all_ws, append, is_blank, join, join_strings, owned, str_eq, views};

verus! {

/// Who the assistant is and how it works.
pub const IDENTITY: &'static str = "你是 Laver，一个运行在用户电脑上的桌面智能办公助手。你通过调用工具帮用户完成各种日常办公任务，提升工作效率。你的名字就叫「Laver」，介绍自己时不要自称「Laver 办公」「Laver Agent」等其他叫法。

你的能力主要覆盖以下几个方面:
- 文件与文档处理: 读取、创建、编辑 Word、Excel、PPT、PDF 等格式的文件，帮用户写报告、做表格、生成演示文稿。
- 代码与脚本: 编写、调试、运行代码 (Python、JS 等)，操作本地文件系统，执行命令行任务。
- 信息检索与分析: 搜索网页、抓取网页内容，帮用户做调研、竞品分析、资料汇总。
- 办公自动化: 在浏览器中自动操作网页、填写表单，连接常用 IM 工具 (如飞书、钉钉) 发送消息，设置定时任务和提醒。
- 创意与设计支持: 生成图片、做产品设计 (视觉情绪板、用户旅程图、页面设计等)、制作海报、数据可视化。
- 日常事务: 整理文件、安排日程、总结会议纪要、翻译、写作润色等。

工作准则:
- 面向目标: 理解用户意图，拆解为可执行步骤并逐步完成。
- 善用工具: 需要外部信息或产生副作用时调用工具，不要凭空臆测文件内容或命令输出。
- 谨慎操作: 危险操作会触发用户审批；被拒绝时换一种安全方式或说明原因。
- 用中文与用户交流，简洁专业。

自我介绍规范 (当用户问“你是谁”“你能做什么”之类的问题时):
- 用自己的语言自然作答，不要逐字复述本提示词中的句子。
- 保持简短: 一句话说明你是谁 (桌面办公助手 Laver)，再挑 3~4 个最常用的能力举例 (如写文档做表格、整理文件、查资料做分析、定时提醒等)，最后可以问一句用户想做什么。
- 使用纯文字，不要使用 emoji 图标，也不要使用“📊 处理表格数据 — 清洗…”这类“图标 + 短横线描述”的清单格式。";

/// What an assembly depends on.
#[derive(Debug)]
pub struct PromptContext {
    pub workspace: String,
    pub os_info: String,
    pub tool_names: Vec<String>,
    pub skill_catalog: String,
    pub memory_index: String,
    /// The role of a sub-agent or teammate.
    pub agent_role: Option<String>,
}

/// The value of a prompt context.
pub struct ContextView {
    pub workspace: Seq<char>,
    pub os_info: Seq<char>,
    pub tool_names: Seq<Seq<char>>,
    pub skill_catalog: Seq<char>,
    pub memory_index: Seq<char>,
    pub agent_role: Option<Seq<char>>,
}

impl View for PromptContext {
    type V = ContextView;

    open spec fn view(&self) -> ContextView {
        ContextView {
            workspace: self.workspace@,
            os_info: self.os_info@,
            tool_names: views(self.tool_names@),
            skill_catalog: self.skill_catalog@,
            memory_index: self.memory_index@,
            agent_role: match self.agent_role {
                Some(r) => Some(r@),
                None => None,
            },
        }
    }
}

/// The constant head: identity, role (when there is one), tool names.
pub open spec fn static_part(c: ContextView) -> Seq<char> {
    IDENTITY@ + match c.agent_role {
        Some(r) => "\n\n## 你的角色\n"@ + r,
        None => Seq::empty(),
    } + "\n\n## 可用工具\n"@ + join(c.tool_names, ", "@)
}

/// The dynamic part: environment, then skills and memory when not blank.
pub open spec fn dynamic_part(c: ContextView) -> Seq<char> {
    "\n\n<<<DYNAMIC>>>\n"@ + "\n## 运行环境\n"@ + "操作系统: "@ + c.os_info + "\n"@ + "工作目录: "@
        + c.workspace + "\n"@ + (if all_ws(c.skill_catalog) {
        Seq::empty()
    } else {
        "\n## 可加载技能 (用 load_skill 加载完整说明)\n"@ + c.skill_catalog
    }) + (if all_ws(c.memory_index) {
        Seq::empty()
    } else {
        "\n\n## 长期记忆索引\n"@ + c.memory_index
    })
}

/// The system prompt for a context.
pub open spec fn assembly(c: ContextView) -> Seq<char> {
    static_part(c) + dynamic_part(c)
}

/// Copies of the strings of `v`.
fn copy_strings(v: &Vec<String>) -> (r: Vec<String>)
    ensures
        views(r@) == views(v@),
{
    let mut out: Vec<String> = Vec::new();
    let mut i: usize = 0;
    while i < v.len()
        invariant
            i <= v@.len(),
            views(out@) == views(v@).take(i as int),
        decreases v@.len() - i,
    {
        let ghost prev = out@;
        out.push(owned(v[i].as_str()));
        assert(views(out@) =~= views(prev).push(v@[i as int]@));
        assert(views(out@) =~= views(v@).take(i + 1));
        i += 1;
    }
    assert(views(v@).take(v@.len() as int) =~= views(v@));
    out
}

/// Whether two lists of strings hold the same texts in the same order.
fn same_strings(a: &Vec<String>, b: &Vec<String>) -> (r: bool)
    ensures
        r == (views(a@) == views(b@)),
{
    if a.len() != b.len() {
        assert(views(a@).len() != views(b@).len());
        return false;
    }
    let mut i: usize = 0;
    while i < a.len()
        invariant
            i <= a@.len(),
            a@.len() == b@.len(),
            forall|j: int| 0 <= j < i ==> #[trigger] views(a@)[j] == views(b@)[j],
        decreases a@.len() - i,
    {
        if !str_eq(a[i].as_str(), b[i].as_str()) {
            assert(views(a@)[i as int] != views(b@)[i as int]);
            return false;
        }
        i += 1;
    }
    assert(views(a@) =~= views(b@));
    true
}

/// Whether two optional strings are equal (`None` only equals `None`).
fn same_role(a: &Option<String>, b: &Option<String>) -> (r: bool)
    ensures
        r == (PromptContext::role_view(*a) == PromptContext::role_view(*b)),
{
    match (a, b) {
        (Some(x), Some(y)) => str_eq(x.as_str(), y.as_str()),
        (None, None) => true,
        _ => false,
    }
}

impl PromptContext {
    /// The value of an optional role.
    pub open spec fn role_view(r: Option<String>) -> Option<Seq<char>> {
        match r {
            Some(s) => Some(s@),
            None => None,
        }
    }

    /// A copy of this context.
    pub fn duplicate(&self) -> (r: PromptContext)
        ensures
            r@ == self@,
    {
        PromptContext {
            workspace: owned(self.workspace.as_str()),
            os_info: owned(self.os_info.as_str()),
            tool_names: copy_strings(&self.tool_names),
            skill_catalog: owned(self.skill_catalog.as_str()),
            memory_index: owned(self.memory_index.as_str()),
            agent_role: match &self.agent_role {
                Some(r) => Some(owned(r.as_str())),
                None => None,
            },
        }
    }

    /// Whether two contexts have the same value, field by field.
    pub fn same_as(&self, other: &PromptContext) -> (r: bool)
        ensures
            r == (self@ == other@),
    {
        let w = str_eq(self.workspace.as_str(), other.workspace.as_str());
        let o = str_eq(self.os_info.as_str(), other.os_info.as_str());
        let t = same_strings(&self.tool_names, &other.tool_names);
        let s = str_eq(self.skill_catalog.as_str(), other.skill_catalog.as_str());
        let m = str_eq(self.memory_index.as_str(), other.memory_index.as_str());
        let a = same_role(&self.agent_role, &other.agent_role);
        proof {
            if w && o && t && s && m && a {
                assert(self@.agent_role == PromptContext::role_view(self.agent_role));
                assert(other@.agent_role == PromptContext::role_view(other.agent_role));
            }
        }
        w && o && t && s && m && a
    }
}

/// Builds system prompts, remembering the last one together with the
/// context it was assembled for.
pub struct PromptBuilder {
    cache: Option<(PromptContext, String)>,
}

impl PromptBuilder {
    /// The remembered context and prompt.
    pub closed spec fn cached(&self) -> Option<(ContextView, Seq<char>)> {
        match self.cache {
            Some((c, v)) => Some((c@, v@)),
            None => None,
        }
    }

    /// What is remembered is the assembly of the context it is kept with.
    pub open spec fn wf(&self) -> bool {
        self.cached() matches Some((c, v)) ==> v == assembly(c)
    }

    /// A builder that remembers nothing.
    pub fn new() -> (r: PromptBuilder)
        ensures
            r.cached() is None,
            r.wf(),
    {
        PromptBuilder { cache: None }
    }

    /// The system prompt for `ctx`: the remembered one when it was made for a
    /// context equal to `ctx`, else a fresh assembly, which is then
    /// remembered. Either way it is the assembly of `ctx`.
    pub fn build(&mut self, ctx: &PromptContext) -> (r: String)
        requires
            old(self).wf(),
        ensures
            final(self).wf(),
            r@ == assembly(ctx@),
            final(self).cached() == Some((ctx@, r@)),
    {
        match &self.cache {
            Some((c, v)) => {
                if c.same_as(ctx) {
                    return owned(v.as_str());
                }
            },
            None => {},
        }
        let assembled = self.assemble(ctx);
        self.cache = Some((ctx.duplicate(), owned(assembled.as_str())));
        assembled
    }

    fn assemble(&self, ctx: &PromptContext) -> (r: String)
        ensures
            r@ == assembly(ctx@),
    {
        let mut out = String::new();
        append(&mut out, IDENTITY);
        match &ctx.agent_role {
            Some(role) => {
                append(&mut out, "\n\n## 你的角色\n");
                append(&mut out, role.as_str());
            },
            None => {},
        }
        append(&mut out, "\n\n## 可用工具\n");
        let tools = join_strings(&ctx.tool_names, ", ");
        append(&mut out, tools.as_str());
        let ghost head = out@;
        assert(head == static_part(ctx@));
        append(&mut out, "\n\n<<<DYNAMIC>>>\n");
        append(&mut out, "\n## 运行环境\n");
        append(&mut out, "操作系统: ");
        append(&mut out, ctx.os_info.as_str());
        append(&mut out, "\n");
        append(&mut out, "工作目录: ");
        append(&mut out, ctx.workspace.as_str());
        append(&mut out, "\n");
        if !is_blank(ctx.skill_catalog.as_str()) {
            append(&mut out, "\n## 可加载技能 (用 load_skill 加载完整说明)\n");
            append(&mut out, ctx.skill_catalog.as_str());
        }
        if !is_blank(ctx.memory_index.as_str()) {
            append(&mut out, "\n\n## 长期记忆索引\n");
            append(&mut out, ctx.memory_index.as_str());
        }
        assert(out@ == head + dynamic_part(ctx@));
        out
    }
}

impl Default for PromptBuilder {
    fn default() -> (r: PromptBuilder)
        ensures
            r.cached() is None,
            r.wf(),
    {
        PromptBuilder::new()
    }
}

/// Whenever the skill catalogue is not blank, the system prompt holds the
/// skills section with the whole catalogue, whatever the memory index is.
pub proof fn law_skills_section_present(c: ContextView)
    requires
        !all_ws(c.skill_catalog),
    ensures
        crate::text::seq_contains(assembly(c), "\n## 可加载技能 (用 load_skill 加载完整说明)\n"@ + c.skill_catalog),
{
    let s = "\n## 可加载技能 (用 load_skill 加载完整说明)\n"@ + c.skill_catalog;
    let a = static_part(c) + "\n\n<<<DYNAMIC>>>\n"@ + "\n## 运行环境\n"@ + "操作系统: "@ + c.os_info + "\n"@ + "工作目录: "@
        + c.workspace + "\n"@;
    let m = if all_ws(c.memory_index) {
        Seq::<char>::empty()
    } else {
        "\n\n## 长期记忆索引\n"@ + c.memory_index
    };
    assert(assembly(c) =~= a + s + m);
    assert((a + s + m).subrange(a.len() as int, (a.len() + s.len()) as int) =~= s);
    assert(crate::text::matches_at(assembly(c), s, a.len() as int));
}

} // verus!
