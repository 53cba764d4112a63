//! The built-in tools: their names, descriptions and input schemas (JSON
//! text), as offered to the model.

use vstd::prelude::*;

use crate::llm::types::ToolSpec;
use crate::text::owned;

verus! {

/// The `shell` tool.
pub struct ShellTool;

impl ShellTool {
    /// The tool's name.
    pub fn name(&self) -> (r: &'static str)
        ensures
            r@ == "shell"@,
    {
        "shell"
    }

    /// What the tool does, for the model.
    pub fn description(&self) -> (r: &'static str)
        ensures
            r@ == "在用户的 Windows 机器上执行一条 PowerShell 命令并返回输出。用于运行脚本、查询系统、处理文件等。设置 run_in_background=true 可将耗时命令放入后台执行。"@,
    {
        "在用户的 Windows 机器上执行一条 PowerShell 命令并返回输出。用于运行脚本、查询系统、处理文件等。设置 run_in_background=true 可将耗时命令放入后台执行。"
    }

    /// The JSON schema of the tool's input.
    pub fn input_schema(&self) -> (r: String)
        ensures
            r@ == "{\"type\":\"object\",\"properties\":{\"command\":{\"type\":\"string\",\"description\":\"要执行的 PowerShell 命令\"},\"run_in_background\":{\"type\":\"boolean\",\"description\":\"是否放入后台异步执行 (适合安装依赖、长时间任务)\"}},\"required\":[\"command\"]}"@,
    {
        owned("{\"type\":\"object\",\"properties\":{\"command\":{\"type\":\"string\",\"description\":\"要执行的 PowerShell 命令\"},\"run_in_background\":{\"type\":\"boolean\",\"description\":\"是否放入后台异步执行 (适合安装依赖、长时间任务)\"}},\"required\":[\"command\"]}")
    }

    /// Whether calls of the tool may run side by side.
    pub fn concurrency_safe(&self) -> (r: bool)
        ensures
            r == false,
    {
        false
    }

    /// The tool's definition for the model.
    pub fn spec(&self) -> (r: ToolSpec)
        ensures
            r.name@ == "shell"@,
            r.description@ == "在用户的 Windows 机器上执行一条 PowerShell 命令并返回输出。用于运行脚本、查询系统、处理文件等。设置 run_in_background=true 可将耗时命令放入后台执行。"@,
            r.input_schema@ == "{\"type\":\"object\",\"properties\":{\"command\":{\"type\":\"string\",\"description\":\"要执行的 PowerShell 命令\"},\"run_in_background\":{\"type\":\"boolean\",\"description\":\"是否放入后台异步执行 (适合安装依赖、长时间任务)\"}},\"required\":[\"command\"]}"@,
    {
        ToolSpec {
            name: owned(self.name()),
            description: owned(self.description()),
            input_schema: self.input_schema(),
        }
    }
}

/// The `read_file` tool.
pub struct ReadFileTool;

impl ReadFileTool {
    /// The tool's name.
    pub fn name(&self) -> (r: &'static str)
        ensures
            r@ == "read_file"@,
    {
        "read_file"
    }

    /// What the tool does, for the model.
    pub fn description(&self) -> (r: &'static str)
        ensures
            r@ == "读取文本文件内容。支持相对工作区的路径或绝对路径。"@,
    {
        "读取文本文件内容。支持相对工作区的路径或绝对路径。"
    }

    /// The JSON schema of the tool's input.
    pub fn input_schema(&self) -> (r: String)
        ensures
            r@ == "{\"type\":\"object\",\"properties\":{\"path\":{\"type\":\"string\",\"description\":\"文件路径\"}},\"required\":[\"path\"]}"@,
    {
        owned("{\"type\":\"object\",\"properties\":{\"path\":{\"type\":\"string\",\"description\":\"文件路径\"}},\"required\":[\"path\"]}")
    }

    /// Whether calls of the tool may run side by side.
    pub fn concurrency_safe(&self) -> (r: bool)
        ensures
            r == true,
    {
        true
    }

    /// The tool's definition for the model.
    pub fn spec(&self) -> (r: ToolSpec)
        ensures
            r.name@ == "read_file"@,
            r.description@ == "读取文本文件内容。支持相对工作区的路径或绝对路径。"@,
            r.input_schema@ == "{\"type\":\"object\",\"properties\":{\"path\":{\"type\":\"string\",\"description\":\"文件路径\"}},\"required\":[\"path\"]}"@,
    {
        ToolSpec {
            name: owned(self.name()),
            description: owned(self.description()),
            input_schema: self.input_schema(),
        }
    }
}

/// The `write_file` tool.
pub struct WriteFileTool;

impl WriteFileTool {
    /// The tool's name.
    pub fn name(&self) -> (r: &'static str)
        ensures
            r@ == "write_file"@,
    {
        "write_file"
    }

    /// What the tool does, for the model.
    pub fn description(&self) -> (r: &'static str)
        ensures
            r@ == "创建或覆盖文件，写入给定内容。父目录不存在时自动创建。"@,
    {
        "创建或覆盖文件，写入给定内容。父目录不存在时自动创建。"
    }

    /// The JSON schema of the tool's input.
    pub fn input_schema(&self) -> (r: String)
        ensures
            r@ == "{\"type\":\"object\",\"properties\":{\"path\":{\"type\":\"string\",\"description\":\"文件路径\"},\"content\":{\"type\":\"string\",\"description\":\"文件内容\"}},\"required\":[\"path\",\"content\"]}"@,
    {
        owned("{\"type\":\"object\",\"properties\":{\"path\":{\"type\":\"string\",\"description\":\"文件路径\"},\"content\":{\"type\":\"string\",\"description\":\"文件内容\"}},\"required\":[\"path\",\"content\"]}")
    }

    /// Whether calls of the tool may run side by side.
    pub fn concurrency_safe(&self) -> (r: bool)
        ensures
            r == false,
    {
        false
    }

    /// The tool's definition for the model.
    pub fn spec(&self) -> (r: ToolSpec)
        ensures
            r.name@ == "write_file"@,
            r.description@ == "创建或覆盖文件，写入给定内容。父目录不存在时自动创建。"@,
            r.input_schema@ == "{\"type\":\"object\",\"properties\":{\"path\":{\"type\":\"string\",\"description\":\"文件路径\"},\"content\":{\"type\":\"string\",\"description\":\"文件内容\"}},\"required\":[\"path\",\"content\"]}"@,
    {
        ToolSpec {
            name: owned(self.name()),
            description: owned(self.description()),
            input_schema: self.input_schema(),
        }
    }
}

/// The `edit_file` tool.
pub struct EditFileTool;

impl EditFileTool {
    /// The tool's name.
    pub fn name(&self) -> (r: &'static str)
        ensures
            r@ == "edit_file"@,
    {
        "edit_file"
    }

    /// What the tool does, for the model.
    pub fn description(&self) -> (r: &'static str)
        ensures
            r@ == "在文件中把 old_string 精确替换为 new_string。old_string 必须唯一匹配。"@,
    {
        "在文件中把 old_string 精确替换为 new_string。old_string 必须唯一匹配。"
    }

    /// The JSON schema of the tool's input.
    pub fn input_schema(&self) -> (r: String)
        ensures
            r@ == "{\"type\":\"object\",\"properties\":{\"path\":{\"type\":\"string\",\"description\":\"文件路径\"},\"old_string\":{\"type\":\"string\",\"description\":\"要替换的原文 (需唯一)\"},\"new_string\":{\"type\":\"string\",\"description\":\"替换后的新文本\"}},\"required\":[\"path\",\"old_string\",\"new_string\"]}"@,
    {
        owned("{\"type\":\"object\",\"properties\":{\"path\":{\"type\":\"string\",\"description\":\"文件路径\"},\"old_string\":{\"type\":\"string\",\"description\":\"要替换的原文 (需唯一)\"},\"new_string\":{\"type\":\"string\",\"description\":\"替换后的新文本\"}},\"required\":[\"path\",\"old_string\",\"new_string\"]}")
    }

    /// Whether calls of the tool may run side by side.
    pub fn concurrency_safe(&self) -> (r: bool)
        ensures
            r == false,
    {
        false
    }

    /// The tool's definition for the model.
    pub fn spec(&self) -> (r: ToolSpec)
        ensures
            r.name@ == "edit_file"@,
            r.description@ == "在文件中把 old_string 精确替换为 new_string。old_string 必须唯一匹配。"@,
            r.input_schema@ == "{\"type\":\"object\",\"properties\":{\"path\":{\"type\":\"string\",\"description\":\"文件路径\"},\"old_string\":{\"type\":\"string\",\"description\":\"要替换的原文 (需唯一)\"},\"new_string\":{\"type\":\"string\",\"description\":\"替换后的新文本\"}},\"required\":[\"path\",\"old_string\",\"new_string\"]}"@,
    {
        ToolSpec {
            name: owned(self.name()),
            description: owned(self.description()),
            input_schema: self.input_schema(),
        }
    }
}

/// The `glob` tool.
pub struct GlobTool;

impl GlobTool {
    /// The tool's name.
    pub fn name(&self) -> (r: &'static str)
        ensures
            r@ == "glob"@,
    {
        "glob"
    }

    /// What the tool does, for the model.
    pub fn description(&self) -> (r: &'static str)
        ensures
            r@ == "按 glob 模式查找文件，例如 **/*.xlsx 或 reports/*.md。相对工作区解析。"@,
    {
        "按 glob 模式查找文件，例如 **/*.xlsx 或 reports/*.md。相对工作区解析。"
    }

    /// The JSON schema of the tool's input.
    pub fn input_schema(&self) -> (r: String)
        ensures
            r@ == "{\"type\":\"object\",\"properties\":{\"pattern\":{\"type\":\"string\",\"description\":\"glob 模式\"}},\"required\":[\"pattern\"]}"@,
    {
        owned("{\"type\":\"object\",\"properties\":{\"pattern\":{\"type\":\"string\",\"description\":\"glob 模式\"}},\"required\":[\"pattern\"]}")
    }

    /// Whether calls of the tool may run side by side.
    pub fn concurrency_safe(&self) -> (r: bool)
        ensures
            r == true,
    {
        true
    }

    /// The tool's definition for the model.
    pub fn spec(&self) -> (r: ToolSpec)
        ensures
            r.name@ == "glob"@,
            r.description@ == "按 glob 模式查找文件，例如 **/*.xlsx 或 reports/*.md。相对工作区解析。"@,
            r.input_schema@ == "{\"type\":\"object\",\"properties\":{\"pattern\":{\"type\":\"string\",\"description\":\"glob 模式\"}},\"required\":[\"pattern\"]}"@,
    {
        ToolSpec {
            name: owned(self.name()),
            description: owned(self.description()),
            input_schema: self.input_schema(),
        }
    }
}

/// The `todo_write` tool.
pub struct TodoWriteTool;

impl TodoWriteTool {
    /// The tool's name.
    pub fn name(&self) -> (r: &'static str)
        ensures
            r@ == "todo_write"@,
    {
        "todo_write"
    }

    /// What the tool does, for the model.
    pub fn description(&self) -> (r: &'static str)
        ensures
            r@ == "维护当前任务的待办清单。开始多步骤任务时先列出全部步骤，随进展更新每项状态 (pending/in_progress/completed)。保持只有一项 in_progress。"@,
    {
        "维护当前任务的待办清单。开始多步骤任务时先列出全部步骤，随进展更新每项状态 (pending/in_progress/completed)。保持只有一项 in_progress。"
    }

    /// The JSON schema of the tool's input.
    pub fn input_schema(&self) -> (r: String)
        ensures
            r@ == "{\"type\":\"object\",\"properties\":{\"todos\":{\"type\":\"array\",\"description\":\"完整的待办清单 (每次传全量)\",\"items\":{\"type\":\"object\",\"properties\":{\"content\":{\"type\":\"string\"},\"status\":{\"type\":\"string\",\"enum\":[\"pending\",\"in_progress\",\"completed\"]}},\"required\":[\"content\",\"status\"]}}},\"required\":[\"todos\"]}"@,
    {
        owned("{\"type\":\"object\",\"properties\":{\"todos\":{\"type\":\"array\",\"description\":\"完整的待办清单 (每次传全量)\",\"items\":{\"type\":\"object\",\"properties\":{\"content\":{\"type\":\"string\"},\"status\":{\"type\":\"string\",\"enum\":[\"pending\",\"in_progress\",\"completed\"]}},\"required\":[\"content\",\"status\"]}}},\"required\":[\"todos\"]}")
    }

    /// Whether calls of the tool may run side by side.
    pub fn concurrency_safe(&self) -> (r: bool)
        ensures
            r == false,
    {
        false
    }

    /// The tool's definition for the model.
    pub fn spec(&self) -> (r: ToolSpec)
        ensures
            r.name@ == "todo_write"@,
            r.description@ == "维护当前任务的待办清单。开始多步骤任务时先列出全部步骤，随进展更新每项状态 (pending/in_progress/completed)。保持只有一项 in_progress。"@,
            r.input_schema@ == "{\"type\":\"object\",\"properties\":{\"todos\":{\"type\":\"array\",\"description\":\"完整的待办清单 (每次传全量)\",\"items\":{\"type\":\"object\",\"properties\":{\"content\":{\"type\":\"string\"},\"status\":{\"type\":\"string\",\"enum\":[\"pending\",\"in_progress\",\"completed\"]}},\"required\":[\"content\",\"status\"]}}},\"required\":[\"todos\"]}"@,
    {
        ToolSpec {
            name: owned(self.name()),
            description: owned(self.description()),
            input_schema: self.input_schema(),
        }
    }
}

/// The `load_skill` tool.
pub struct LoadSkillTool;

impl LoadSkillTool {
    /// The tool's name.
    pub fn name(&self) -> (r: &'static str)
        ensures
            r@ == "load_skill"@,
    {
        "load_skill"
    }

    /// What the tool does, for the model.
    pub fn description(&self) -> (r: &'static str)
        ensures
            r@ == "加载指定技能的完整操作说明。当任务匹配某个技能目录中的能力时调用，加载后按其步骤执行。"@,
    {
        "加载指定技能的完整操作说明。当任务匹配某个技能目录中的能力时调用，加载后按其步骤执行。"
    }

    /// The JSON schema of the tool's input.
    pub fn input_schema(&self) -> (r: String)
        ensures
            r@ == "{\"type\":\"object\",\"properties\":{\"name\":{\"type\":\"string\",\"description\":\"技能名称\"}},\"required\":[\"name\"]}"@,
    {
        owned("{\"type\":\"object\",\"properties\":{\"name\":{\"type\":\"string\",\"description\":\"技能名称\"}},\"required\":[\"name\"]}")
    }

    /// Whether calls of the tool may run side by side.
    pub fn concurrency_safe(&self) -> (r: bool)
        ensures
            r == false,
    {
        false
    }

    /// The tool's definition for the model.
    pub fn spec(&self) -> (r: ToolSpec)
        ensures
            r.name@ == "load_skill"@,
            r.description@ == "加载指定技能的完整操作说明。当任务匹配某个技能目录中的能力时调用，加载后按其步骤执行。"@,
            r.input_schema@ == "{\"type\":\"object\",\"properties\":{\"name\":{\"type\":\"string\",\"description\":\"技能名称\"}},\"required\":[\"name\"]}"@,
    {
        ToolSpec {
            name: owned(self.name()),
            description: owned(self.description()),
            input_schema: self.input_schema(),
        }
    }
}

/// The `remember` tool.
pub struct RememberTool;

impl RememberTool {
    /// The tool's name.
    pub fn name(&self) -> (r: &'static str)
        ensures
            r@ == "remember"@,
    {
        "remember"
    }

    /// What the tool does, for the model.
    pub fn description(&self) -> (r: &'static str)
        ensures
            r@ == "将一条需要跨会话长期记住的事实存入记忆 (用户偏好、项目约定、稳定信息)。"@,
    {
        "将一条需要跨会话长期记住的事实存入记忆 (用户偏好、项目约定、稳定信息)。"
    }

    /// The JSON schema of the tool's input.
    pub fn input_schema(&self) -> (r: String)
        ensures
            r@ == "{\"type\":\"object\",\"properties\":{\"name\":{\"type\":\"string\",\"description\":\"简短标识名\"},\"description\":{\"type\":\"string\",\"description\":\"一句话说明\"},\"type\":{\"type\":\"string\",\"enum\":[\"user\",\"feedback\",\"project\",\"reference\"]},\"content\":{\"type\":\"string\",\"description\":\"记忆正文\"}},\"required\":[\"name\",\"content\"]}"@,
    {
        owned("{\"type\":\"object\",\"properties\":{\"name\":{\"type\":\"string\",\"description\":\"简短标识名\"},\"description\":{\"type\":\"string\",\"description\":\"一句话说明\"},\"type\":{\"type\":\"string\",\"enum\":[\"user\",\"feedback\",\"project\",\"reference\"]},\"content\":{\"type\":\"string\",\"description\":\"记忆正文\"}},\"required\":[\"name\",\"content\"]}")
    }

    /// Whether calls of the tool may run side by side.
    pub fn concurrency_safe(&self) -> (r: bool)
        ensures
            r == false,
    {
        false
    }

    /// The tool's definition for the model.
    pub fn spec(&self) -> (r: ToolSpec)
        ensures
            r.name@ == "remember"@,
            r.description@ == "将一条需要跨会话长期记住的事实存入记忆 (用户偏好、项目约定、稳定信息)。"@,
            r.input_schema@ == "{\"type\":\"object\",\"properties\":{\"name\":{\"type\":\"string\",\"description\":\"简短标识名\"},\"description\":{\"type\":\"string\",\"description\":\"一句话说明\"},\"type\":{\"type\":\"string\",\"enum\":[\"user\",\"feedback\",\"project\",\"reference\"]},\"content\":{\"type\":\"string\",\"description\":\"记忆正文\"}},\"required\":[\"name\",\"content\"]}"@,
    {
        ToolSpec {
            name: owned(self.name()),
            description: owned(self.description()),
            input_schema: self.input_schema(),
        }
    }
}

/// The `task` tool.
pub struct TaskTool;

impl TaskTool {
    /// The tool's name.
    pub fn name(&self) -> (r: &'static str)
        ensures
            r@ == "task"@,
    {
        "task"
    }

    /// What the tool does, for the model.
    pub fn description(&self) -> (r: &'static str)
        ensures
            r@ == "派生一个一次性子代理来独立完成某个子任务。子代理有独立的上下文，完成后只返回最终结论。适合需要大量中间步骤但你只关心结果的子任务。"@,
    {
        "派生一个一次性子代理来独立完成某个子任务。子代理有独立的上下文，完成后只返回最终结论。适合需要大量中间步骤但你只关心结果的子任务。"
    }

    /// The JSON schema of the tool's input.
    pub fn input_schema(&self) -> (r: String)
        ensures
            r@ == "{\"type\":\"object\",\"properties\":{\"description\":{\"type\":\"string\",\"description\":\"交给子代理的完整任务描述\"}},\"required\":[\"description\"]}"@,
    {
        owned("{\"type\":\"object\",\"properties\":{\"description\":{\"type\":\"string\",\"description\":\"交给子代理的完整任务描述\"}},\"required\":[\"description\"]}")
    }

    /// Whether calls of the tool may run side by side.
    pub fn concurrency_safe(&self) -> (r: bool)
        ensures
            r == false,
    {
        false
    }

    /// The tool's definition for the model.
    pub fn spec(&self) -> (r: ToolSpec)
        ensures
            r.name@ == "task"@,
            r.description@ == "派生一个一次性子代理来独立完成某个子任务。子代理有独立的上下文，完成后只返回最终结论。适合需要大量中间步骤但你只关心结果的子任务。"@,
            r.input_schema@ == "{\"type\":\"object\",\"properties\":{\"description\":{\"type\":\"string\",\"description\":\"交给子代理的完整任务描述\"}},\"required\":[\"description\"]}"@,
    {
        ToolSpec {
            name: owned(self.name()),
            description: owned(self.description()),
            input_schema: self.input_schema(),
        }
    }
}

/// The `task_create` tool.
pub struct TaskCreateTool;

impl TaskCreateTool {
    /// The tool's name.
    pub fn name(&self) -> (r: &'static str)
        ensures
            r@ == "task_create"@,
    {
        "task_create"
    }

    /// What the tool does, for the model.
    pub fn description(&self) -> (r: &'static str)
        ensures
            r@ == "在任务图中创建一个可持久化、可被团队认领的任务，可声明依赖 (blocked_by 任务 id 列表)。"@,
    {
        "在任务图中创建一个可持久化、可被团队认领的任务，可声明依赖 (blocked_by 任务 id 列表)。"
    }

    /// The JSON schema of the tool's input.
    pub fn input_schema(&self) -> (r: String)
        ensures
            r@ == "{\"type\":\"object\",\"properties\":{\"subject\":{\"type\":\"string\",\"description\":\"任务标题\"},\"description\":{\"type\":\"string\",\"description\":\"任务详情\"},\"blocked_by\":{\"type\":\"array\",\"items\":{\"type\":\"string\"},\"description\":\"依赖的任务 id\"}},\"required\":[\"subject\"]}"@,
    {
        owned("{\"type\":\"object\",\"properties\":{\"subject\":{\"type\":\"string\",\"description\":\"任务标题\"},\"description\":{\"type\":\"string\",\"description\":\"任务详情\"},\"blocked_by\":{\"type\":\"array\",\"items\":{\"type\":\"string\"},\"description\":\"依赖的任务 id\"}},\"required\":[\"subject\"]}")
    }

    /// Whether calls of the tool may run side by side.
    pub fn concurrency_safe(&self) -> (r: bool)
        ensures
            r == false,
    {
        false
    }

    /// The tool's definition for the model.
    pub fn spec(&self) -> (r: ToolSpec)
        ensures
            r.name@ == "task_create"@,
            r.description@ == "在任务图中创建一个可持久化、可被团队认领的任务，可声明依赖 (blocked_by 任务 id 列表)。"@,
            r.input_schema@ == "{\"type\":\"object\",\"properties\":{\"subject\":{\"type\":\"string\",\"description\":\"任务标题\"},\"description\":{\"type\":\"string\",\"description\":\"任务详情\"},\"blocked_by\":{\"type\":\"array\",\"items\":{\"type\":\"string\"},\"description\":\"依赖的任务 id\"}},\"required\":[\"subject\"]}"@,
    {
        ToolSpec {
            name: owned(self.name()),
            description: owned(self.description()),
            input_schema: self.input_schema(),
        }
    }
}

/// The `task_list` tool.
pub struct TaskListTool;

impl TaskListTool {
    /// The tool's name.
    pub fn name(&self) -> (r: &'static str)
        ensures
            r@ == "task_list"@,
    {
        "task_list"
    }

    /// What the tool does, for the model.
    pub fn description(&self) -> (r: &'static str)
        ensures
            r@ == "列出任务图中的所有任务及其状态、owner、依赖。"@,
    {
        "列出任务图中的所有任务及其状态、owner、依赖。"
    }

    /// The JSON schema of the tool's input.
    pub fn input_schema(&self) -> (r: String)
        ensures
            r@ == "{\"type\":\"object\",\"properties\":{}}"@,
    {
        owned("{\"type\":\"object\",\"properties\":{}}")
    }

    /// Whether calls of the tool may run side by side.
    pub fn concurrency_safe(&self) -> (r: bool)
        ensures
            r == true,
    {
        true
    }

    /// The tool's definition for the model.
    pub fn spec(&self) -> (r: ToolSpec)
        ensures
            r.name@ == "task_list"@,
            r.description@ == "列出任务图中的所有任务及其状态、owner、依赖。"@,
            r.input_schema@ == "{\"type\":\"object\",\"properties\":{}}"@,
    {
        ToolSpec {
            name: owned(self.name()),
            description: owned(self.description()),
            input_schema: self.input_schema(),
        }
    }
}

/// The `task_claim` tool.
pub struct TaskClaimTool;

impl TaskClaimTool {
    /// The tool's name.
    pub fn name(&self) -> (r: &'static str)
        ensures
            r@ == "task_claim"@,
    {
        "task_claim"
    }

    /// What the tool does, for the model.
    pub fn description(&self) -> (r: &'static str)
        ensures
            r@ == "认领一个 pending 且依赖已满足的任务，认领后状态转为 in_progress。"@,
    {
        "认领一个 pending 且依赖已满足的任务，认领后状态转为 in_progress。"
    }

    /// The JSON schema of the tool's input.
    pub fn input_schema(&self) -> (r: String)
        ensures
            r@ == "{\"type\":\"object\",\"properties\":{\"id\":{\"type\":\"string\"}},\"required\":[\"id\"]}"@,
    {
        owned("{\"type\":\"object\",\"properties\":{\"id\":{\"type\":\"string\"}},\"required\":[\"id\"]}")
    }

    /// Whether calls of the tool may run side by side.
    pub fn concurrency_safe(&self) -> (r: bool)
        ensures
            r == false,
    {
        false
    }

    /// The tool's definition for the model.
    pub fn spec(&self) -> (r: ToolSpec)
        ensures
            r.name@ == "task_claim"@,
            r.description@ == "认领一个 pending 且依赖已满足的任务，认领后状态转为 in_progress。"@,
            r.input_schema@ == "{\"type\":\"object\",\"properties\":{\"id\":{\"type\":\"string\"}},\"required\":[\"id\"]}"@,
    {
        ToolSpec {
            name: owned(self.name()),
            description: owned(self.description()),
            input_schema: self.input_schema(),
        }
    }
}

/// The `task_complete` tool.
pub struct TaskCompleteTool;

impl TaskCompleteTool {
    /// The tool's name.
    pub fn name(&self) -> (r: &'static str)
        ensures
            r@ == "task_complete"@,
    {
        "task_complete"
    }

    /// What the tool does, for the model.
    pub fn description(&self) -> (r: &'static str)
        ensures
            r@ == "标记任务为已完成，并返回因此解锁的下游任务。"@,
    {
        "标记任务为已完成，并返回因此解锁的下游任务。"
    }

    /// The JSON schema of the tool's input.
    pub fn input_schema(&self) -> (r: String)
        ensures
            r@ == "{\"type\":\"object\",\"properties\":{\"id\":{\"type\":\"string\"}},\"required\":[\"id\"]}"@,
    {
        owned("{\"type\":\"object\",\"properties\":{\"id\":{\"type\":\"string\"}},\"required\":[\"id\"]}")
    }

    /// Whether calls of the tool may run side by side.
    pub fn concurrency_safe(&self) -> (r: bool)
        ensures
            r == false,
    {
        false
    }

    /// The tool's definition for the model.
    pub fn spec(&self) -> (r: ToolSpec)
        ensures
            r.name@ == "task_complete"@,
            r.description@ == "标记任务为已完成，并返回因此解锁的下游任务。"@,
            r.input_schema@ == "{\"type\":\"object\",\"properties\":{\"id\":{\"type\":\"string\"}},\"required\":[\"id\"]}"@,
    {
        ToolSpec {
            name: owned(self.name()),
            description: owned(self.description()),
            input_schema: self.input_schema(),
        }
    }
}

/// The `cron_schedule` tool.
pub struct CronScheduleTool;

impl CronScheduleTool {
    /// The tool's name.
    pub fn name(&self) -> (r: &'static str)
        ensures
            r@ == "cron_schedule"@,
    {
        "cron_schedule"
    }

    /// What the tool does, for the model.
    pub fn description(&self) -> (r: &'static str)
        ensures
            r@ == "创建定时任务。到点时会自动向本会话注入 prompt 让你执行。cron 为五段式 (分 时 日 月 星期)。"@,
    {
        "创建定时任务。到点时会自动向本会话注入 prompt 让你执行。cron 为五段式 (分 时 日 月 星期)。"
    }

    /// The JSON schema of the tool's input.
    pub fn input_schema(&self) -> (r: String)
        ensures
            r@ == "{\"type\":\"object\",\"properties\":{\"cron\":{\"type\":\"string\",\"description\":\"五段式 cron 表达式, 如 '0 9 * * 1' 表示每周一 9 点\"},\"prompt\":{\"type\":\"string\",\"description\":\"到点时要执行的指令\"},\"recurring\":{\"type\":\"boolean\",\"description\":\"是否重复 (默认 true)\"},\"durable\":{\"type\":\"boolean\",\"description\":\"是否持久化跨重启 (默认 true)\"}},\"required\":[\"cron\",\"prompt\"]}"@,
    {
        owned("{\"type\":\"object\",\"properties\":{\"cron\":{\"type\":\"string\",\"description\":\"五段式 cron 表达式, 如 '0 9 * * 1' 表示每周一 9 点\"},\"prompt\":{\"type\":\"string\",\"description\":\"到点时要执行的指令\"},\"recurring\":{\"type\":\"boolean\",\"description\":\"是否重复 (默认 true)\"},\"durable\":{\"type\":\"boolean\",\"description\":\"是否持久化跨重启 (默认 true)\"}},\"required\":[\"cron\",\"prompt\"]}")
    }

    /// Whether calls of the tool may run side by side.
    pub fn concurrency_safe(&self) -> (r: bool)
        ensures
            r == false,
    {
        false
    }

    /// The tool's definition for the model.
    pub fn spec(&self) -> (r: ToolSpec)
        ensures
            r.name@ == "cron_schedule"@,
            r.description@ == "创建定时任务。到点时会自动向本会话注入 prompt 让你执行。cron 为五段式 (分 时 日 月 星期)。"@,
            r.input_schema@ == "{\"type\":\"object\",\"properties\":{\"cron\":{\"type\":\"string\",\"description\":\"五段式 cron 表达式, 如 '0 9 * * 1' 表示每周一 9 点\"},\"prompt\":{\"type\":\"string\",\"description\":\"到点时要执行的指令\"},\"recurring\":{\"type\":\"boolean\",\"description\":\"是否重复 (默认 true)\"},\"durable\":{\"type\":\"boolean\",\"description\":\"是否持久化跨重启 (默认 true)\"}},\"required\":[\"cron\",\"prompt\"]}"@,
    {
        ToolSpec {
            name: owned(self.name()),
            description: owned(self.description()),
            input_schema: self.input_schema(),
        }
    }
}

/// The `cron_list` tool.
pub struct CronListTool;

impl CronListTool {
    /// The tool's name.
    pub fn name(&self) -> (r: &'static str)
        ensures
            r@ == "cron_list"@,
    {
        "cron_list"
    }

    /// What the tool does, for the model.
    pub fn description(&self) -> (r: &'static str)
        ensures
            r@ == "列出所有定时任务。"@,
    {
        "列出所有定时任务。"
    }

    /// The JSON schema of the tool's input.
    pub fn input_schema(&self) -> (r: String)
        ensures
            r@ == "{\"type\":\"object\",\"properties\":{}}"@,
    {
        owned("{\"type\":\"object\",\"properties\":{}}")
    }

    /// Whether calls of the tool may run side by side.
    pub fn concurrency_safe(&self) -> (r: bool)
        ensures
            r == true,
    {
        true
    }

    /// The tool's definition for the model.
    pub fn spec(&self) -> (r: ToolSpec)
        ensures
            r.name@ == "cron_list"@,
            r.description@ == "列出所有定时任务。"@,
            r.input_schema@ == "{\"type\":\"object\",\"properties\":{}}"@,
    {
        ToolSpec {
            name: owned(self.name()),
            description: owned(self.description()),
            input_schema: self.input_schema(),
        }
    }
}

/// The `cron_cancel` tool.
pub struct CronCancelTool;

impl CronCancelTool {
    /// The tool's name.
    pub fn name(&self) -> (r: &'static str)
        ensures
            r@ == "cron_cancel"@,
    {
        "cron_cancel"
    }

    /// What the tool does, for the model.
    pub fn description(&self) -> (r: &'static str)
        ensures
            r@ == "取消一个定时任务。"@,
    {
        "取消一个定时任务。"
    }

    /// The JSON schema of the tool's input.
    pub fn input_schema(&self) -> (r: String)
        ensures
            r@ == "{\"type\":\"object\",\"properties\":{\"id\":{\"type\":\"string\"}},\"required\":[\"id\"]}"@,
    {
        owned("{\"type\":\"object\",\"properties\":{\"id\":{\"type\":\"string\"}},\"required\":[\"id\"]}")
    }

    /// Whether calls of the tool may run side by side.
    pub fn concurrency_safe(&self) -> (r: bool)
        ensures
            r == false,
    {
        false
    }

    /// The tool's definition for the model.
    pub fn spec(&self) -> (r: ToolSpec)
        ensures
            r.name@ == "cron_cancel"@,
            r.description@ == "取消一个定时任务。"@,
            r.input_schema@ == "{\"type\":\"object\",\"properties\":{\"id\":{\"type\":\"string\"}},\"required\":[\"id\"]}"@,
    {
        ToolSpec {
            name: owned(self.name()),
            description: owned(self.description()),
            input_schema: self.input_schema(),
        }
    }
}

/// The `spawn_teammate` tool.
pub struct SpawnTeammateTool;

impl SpawnTeammateTool {
    /// The tool's name.
    pub fn name(&self) -> (r: &'static str)
        ensures
            r@ == "spawn_teammate"@,
    {
        "spawn_teammate"
    }

    /// What the tool does, for the model.
    pub fn description(&self) -> (r: &'static str)
        ensures
            r@ == "创建一个持久的团队成员 (队友)，它会持续运行、可与你双向通信、并能自主认领任务图中的任务。适合需要并行、长期协作的场景。"@,
    {
        "创建一个持久的团队成员 (队友)，它会持续运行、可与你双向通信、并能自主认领任务图中的任务。适合需要并行、长期协作的场景。"
    }

    /// The JSON schema of the tool's input.
    pub fn input_schema(&self) -> (r: String)
        ensures
            r@ == "{\"type\":\"object\",\"properties\":{\"name\":{\"type\":\"string\",\"description\":\"队友名称 (唯一)\"},\"role\":{\"type\":\"string\",\"description\":\"队友的职责描述\"},\"initial_task\":{\"type\":\"string\",\"description\":\"交给队友的初始任务 (可选)\"}},\"required\":[\"name\",\"role\"]}"@,
    {
        owned("{\"type\":\"object\",\"properties\":{\"name\":{\"type\":\"string\",\"description\":\"队友名称 (唯一)\"},\"role\":{\"type\":\"string\",\"description\":\"队友的职责描述\"},\"initial_task\":{\"type\":\"string\",\"description\":\"交给队友的初始任务 (可选)\"}},\"required\":[\"name\",\"role\"]}")
    }

    /// Whether calls of the tool may run side by side.
    pub fn concurrency_safe(&self) -> (r: bool)
        ensures
            r == false,
    {
        false
    }

    /// The tool's definition for the model.
    pub fn spec(&self) -> (r: ToolSpec)
        ensures
            r.name@ == "spawn_teammate"@,
            r.description@ == "创建一个持久的团队成员 (队友)，它会持续运行、可与你双向通信、并能自主认领任务图中的任务。适合需要并行、长期协作的场景。"@,
            r.input_schema@ == "{\"type\":\"object\",\"properties\":{\"name\":{\"type\":\"string\",\"description\":\"队友名称 (唯一)\"},\"role\":{\"type\":\"string\",\"description\":\"队友的职责描述\"},\"initial_task\":{\"type\":\"string\",\"description\":\"交给队友的初始任务 (可选)\"}},\"required\":[\"name\",\"role\"]}"@,
    {
        ToolSpec {
            name: owned(self.name()),
            description: owned(self.description()),
            input_schema: self.input_schema(),
        }
    }
}

/// The `shutdown_teammate` tool.
pub struct ShutdownTeammateTool;

impl ShutdownTeammateTool {
    /// The tool's name.
    pub fn name(&self) -> (r: &'static str)
        ensures
            r@ == "shutdown_teammate"@,
    {
        "shutdown_teammate"
    }

    /// What the tool does, for the model.
    pub fn description(&self) -> (r: &'static str)
        ensures
            r@ == "请求某个队友完成当前工作后退出 (发送 shutdown_request)。"@,
    {
        "请求某个队友完成当前工作后退出 (发送 shutdown_request)。"
    }

    /// The JSON schema of the tool's input.
    pub fn input_schema(&self) -> (r: String)
        ensures
            r@ == "{\"type\":\"object\",\"properties\":{\"name\":{\"type\":\"string\"}},\"required\":[\"name\"]}"@,
    {
        owned("{\"type\":\"object\",\"properties\":{\"name\":{\"type\":\"string\"}},\"required\":[\"name\"]}")
    }

    /// Whether calls of the tool may run side by side.
    pub fn concurrency_safe(&self) -> (r: bool)
        ensures
            r == false,
    {
        false
    }

    /// The tool's definition for the model.
    pub fn spec(&self) -> (r: ToolSpec)
        ensures
            r.name@ == "shutdown_teammate"@,
            r.description@ == "请求某个队友完成当前工作后退出 (发送 shutdown_request)。"@,
            r.input_schema@ == "{\"type\":\"object\",\"properties\":{\"name\":{\"type\":\"string\"}},\"required\":[\"name\"]}"@,
    {
        ToolSpec {
            name: owned(self.name()),
            description: owned(self.description()),
            input_schema: self.input_schema(),
        }
    }
}

/// The `send_message` tool.
pub struct SendMessageTool;

impl SendMessageTool {
    /// The tool's name.
    pub fn name(&self) -> (r: &'static str)
        ensures
            r@ == "send_message"@,
    {
        "send_message"
    }

    /// What the tool does, for the model.
    pub fn description(&self) -> (r: &'static str)
        ensures
            r@ == "向团队中的另一个成员 (队友或 lead) 发送消息。用于协作、汇报进度、请求审批。"@,
    {
        "向团队中的另一个成员 (队友或 lead) 发送消息。用于协作、汇报进度、请求审批。"
    }

    /// The JSON schema of the tool's input.
    pub fn input_schema(&self) -> (r: String)
        ensures
            r@ == "{\"type\":\"object\",\"properties\":{\"to\":{\"type\":\"string\",\"description\":\"收件人名称 (lead 或队友名)\"},\"content\":{\"type\":\"string\",\"description\":\"消息内容\"},\"type\":{\"type\":\"string\",\"description\":\"消息类型: text/summary/plan_approval 等\",\"default\":\"text\"}},\"required\":[\"to\",\"content\"]}"@,
    {
        owned("{\"type\":\"object\",\"properties\":{\"to\":{\"type\":\"string\",\"description\":\"收件人名称 (lead 或队友名)\"},\"content\":{\"type\":\"string\",\"description\":\"消息内容\"},\"type\":{\"type\":\"string\",\"description\":\"消息类型: text/summary/plan_approval 等\",\"default\":\"text\"}},\"required\":[\"to\",\"content\"]}")
    }

    /// Whether calls of the tool may run side by side.
    pub fn concurrency_safe(&self) -> (r: bool)
        ensures
            r == false,
    {
        false
    }

    /// The tool's definition for the model.
    pub fn spec(&self) -> (r: ToolSpec)
        ensures
            r.name@ == "send_message"@,
            r.description@ == "向团队中的另一个成员 (队友或 lead) 发送消息。用于协作、汇报进度、请求审批。"@,
            r.input_schema@ == "{\"type\":\"object\",\"properties\":{\"to\":{\"type\":\"string\",\"description\":\"收件人名称 (lead 或队友名)\"},\"content\":{\"type\":\"string\",\"description\":\"消息内容\"},\"type\":{\"type\":\"string\",\"description\":\"消息类型: text/summary/plan_approval 等\",\"default\":\"text\"}},\"required\":[\"to\",\"content\"]}"@,
    {
        ToolSpec {
            name: owned(self.name()),
            description: owned(self.description()),
            input_schema: self.input_schema(),
        }
    }
}

/// The `create_worktree` tool.
pub struct WorktreeCreateTool;

impl WorktreeCreateTool {
    /// The tool's name.
    pub fn name(&self) -> (r: &'static str)
        ensures
            r@ == "create_worktree"@,
    {
        "create_worktree"
    }

    /// What the tool does, for the model.
    pub fn description(&self) -> (r: &'static str)
        ensures
            r@ == "为并行任务创建隔离的 git worktree (独立目录+分支)。名称仅限字母数字与 ._- 。"@,
    {
        "为并行任务创建隔离的 git worktree (独立目录+分支)。名称仅限字母数字与 ._- 。"
    }

    /// The JSON schema of the tool's input.
    pub fn input_schema(&self) -> (r: String)
        ensures
            r@ == "{\"type\":\"object\",\"properties\":{\"name\":{\"type\":\"string\"}},\"required\":[\"name\"]}"@,
    {
        owned("{\"type\":\"object\",\"properties\":{\"name\":{\"type\":\"string\"}},\"required\":[\"name\"]}")
    }

    /// Whether calls of the tool may run side by side.
    pub fn concurrency_safe(&self) -> (r: bool)
        ensures
            r == false,
    {
        false
    }

    /// The tool's definition for the model.
    pub fn spec(&self) -> (r: ToolSpec)
        ensures
            r.name@ == "create_worktree"@,
            r.description@ == "为并行任务创建隔离的 git worktree (独立目录+分支)。名称仅限字母数字与 ._- 。"@,
            r.input_schema@ == "{\"type\":\"object\",\"properties\":{\"name\":{\"type\":\"string\"}},\"required\":[\"name\"]}"@,
    {
        ToolSpec {
            name: owned(self.name()),
            description: owned(self.description()),
            input_schema: self.input_schema(),
        }
    }
}

/// The `remove_worktree` tool.
pub struct WorktreeRemoveTool;

impl WorktreeRemoveTool {
    /// The tool's name.
    pub fn name(&self) -> (r: &'static str)
        ensures
            r@ == "remove_worktree"@,
    {
        "remove_worktree"
    }

    /// What the tool does, for the model.
    pub fn description(&self) -> (r: &'static str)
        ensures
            r@ == "删除 git worktree。若存在未提交改动会被拒绝，除非设 discard_changes=true。"@,
    {
        "删除 git worktree。若存在未提交改动会被拒绝，除非设 discard_changes=true。"
    }

    /// The JSON schema of the tool's input.
    pub fn input_schema(&self) -> (r: String)
        ensures
            r@ == "{\"type\":\"object\",\"properties\":{\"name\":{\"type\":\"string\"},\"discard_changes\":{\"type\":\"boolean\"}},\"required\":[\"name\"]}"@,
    {
        owned("{\"type\":\"object\",\"properties\":{\"name\":{\"type\":\"string\"},\"discard_changes\":{\"type\":\"boolean\"}},\"required\":[\"name\"]}")
    }

    /// Whether calls of the tool may run side by side.
    pub fn concurrency_safe(&self) -> (r: bool)
        ensures
            r == false,
    {
        false
    }

    /// The tool's definition for the model.
    pub fn spec(&self) -> (r: ToolSpec)
        ensures
            r.name@ == "remove_worktree"@,
            r.description@ == "删除 git worktree。若存在未提交改动会被拒绝，除非设 discard_changes=true。"@,
            r.input_schema@ == "{\"type\":\"object\",\"properties\":{\"name\":{\"type\":\"string\"},\"discard_changes\":{\"type\":\"boolean\"}},\"required\":[\"name\"]}"@,
    {
        ToolSpec {
            name: owned(self.name()),
            description: owned(self.description()),
            input_schema: self.input_schema(),
        }
    }
}

} // verus!
