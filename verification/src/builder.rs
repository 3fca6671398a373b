//! The record shape for prompting over a file's contents, with its
//! hand-written builder: the instructional prompts, the file's name, and the
//! file contents as the splittable field.

use crate::errors::PromptizeError;
use crate::record::{
    spec_build_prompt_post, spec_members_tail, MessagePair, PromptField, PromptRecord,
};
use crate::serialize::spec_member;
use vstd::prelude::*;
use vstd::string::StringExecFns;

verus! {

/// A prompt over a file's contents: the two instructional prompts, the file's
/// name as fixed context, and the file contents as the one splittable field.
#[derive(Clone, Debug)]
pub struct FileContent {
    pub system_prompt: String,
    pub user_prompt: String,
    pub filename: String,
    pub file_content: String,
}

/// The builder for `FileContent`: every field starts unset, and building with
/// any field still unset is rejected before prompt assembly runs.
#[derive(Clone, Debug)]
pub struct FileContentBuilder {
    pub system_prompt: Option<String>,
    pub user_prompt: Option<String>,
    pub filename: Option<String>,
    pub file_content: Option<String>,
}

impl FileContent {
    /// A builder with every field unset.
    pub fn builder() -> (r: FileContentBuilder)
        ensures
            r.system_prompt is None,
            r.user_prompt is None,
            r.filename is None,
            r.file_content is None,
    {
        FileContentBuilder {
            system_prompt: None,
            user_prompt: None,
            filename: None,
            file_content: None,
        }
    }

    /// The general prompt record this shape stands for: the file's name as
    /// the one context field, the file contents as the splittable field.
    pub fn to_record(&self) -> (r: PromptRecord)
        ensures
            r.system_prompt@ == self.system_prompt@,
            r.user_prompt@ == self.user_prompt@,
            r.context_fields@.len() == 1,
            r.context_fields@[0].name@ == "filename"@,
            r.context_fields@[0].value@ == self.filename@,
            r.splittable.name@ == "file_content"@,
            r.splittable.value@ == self.file_content@,
    {
        let mut context_fields: Vec<PromptField> = Vec::new();
        context_fields.push(
            PromptField { name: String::from_str("filename"), value: self.filename.clone() },
        );
        PromptRecord {
            system_prompt: self.system_prompt.clone(),
            user_prompt: self.user_prompt.clone(),
            context_fields,
            splittable: PromptField {
                name: String::from_str("file_content"),
                value: self.file_content.clone(),
            },
        }
    }
}

impl FileContentBuilder {
    /// Whether every field of the record has been set.
    pub open spec fn all_set(self) -> bool {
        &&& self.system_prompt is Some
        &&& self.user_prompt is Some
        &&& self.filename is Some
        &&& self.file_content is Some
    }

    /// The serialized prompt text the finished record will have.
    pub open spec fn spec_serialized(self) -> Seq<char> {
        seq!['{'] + spec_member("system_prompt"@, self.system_prompt->0@) + spec_members_tail(
            seq![
                ("user_prompt"@, self.user_prompt->0@),
                ("filename"@, self.filename->0@),
                ("file_content"@, self.file_content->0@),
            ],
        ) + seq!['}']
    }

    /// Sets the system prompt.
    pub fn system_prompt(self, system_prompt: String) -> (r: Self)
        ensures
            r.system_prompt == Some(system_prompt),
            r.user_prompt == self.user_prompt,
            r.filename == self.filename,
            r.file_content == self.file_content,
    {
        Self { system_prompt: Some(system_prompt), ..self }
    }

    /// Sets the user prompt.
    pub fn user_prompt(self, user_prompt: String) -> (r: Self)
        ensures
            r.user_prompt == Some(user_prompt),
            r.system_prompt == self.system_prompt,
            r.filename == self.filename,
            r.file_content == self.file_content,
    {
        Self { user_prompt: Some(user_prompt), ..self }
    }

    /// Sets the file's name.
    pub fn filename(self, filename: String) -> (r: Self)
        ensures
            r.filename == Some(filename),
            r.system_prompt == self.system_prompt,
            r.user_prompt == self.user_prompt,
            r.file_content == self.file_content,
    {
        Self { filename: Some(filename), ..self }
    }

    /// Sets the file contents, the splittable field.
    pub fn file_content(self, file_content: String) -> (r: Self)
        ensures
            r.file_content == Some(file_content),
            r.system_prompt == self.system_prompt,
            r.user_prompt == self.user_prompt,
            r.filename == self.filename,
    {
        Self { file_content: Some(file_content), ..self }
    }

    /// Finishes the record; a builder with any field unset is rejected.
    pub fn build(&self) -> (r: Result<FileContent, PromptizeError>)
        ensures
            r is Ok <==> self.all_set(),
            r matches Ok(c) ==> Some(c.system_prompt) == self.system_prompt && Some(c.user_prompt)
                == self.user_prompt && Some(c.filename) == self.filename && Some(c.file_content)
                == self.file_content,
            r matches Err(e) ==> e is MissingField,
    {
        let system_prompt = match &self.system_prompt {
            Some(s) => s.clone(),
            None => {
                return Err(PromptizeError::MissingField);
            },
        };
        let user_prompt = match &self.user_prompt {
            Some(s) => s.clone(),
            None => {
                return Err(PromptizeError::MissingField);
            },
        };
        let filename = match &self.filename {
            Some(s) => s.clone(),
            None => {
                return Err(PromptizeError::MissingField);
            },
        };
        let file_content = match &self.file_content {
            Some(s) => s.clone(),
            None => {
                return Err(PromptizeError::MissingField);
            },
        };
        Ok(FileContent { system_prompt, user_prompt, filename, file_content })
    }

    /// Builds the record and assembles the request payload under the token
    /// budget; a builder with any field unset is rejected before assembly.
    pub fn build_prompt(&self, model: &str, token_limit: u64, chunkable_token_limit: u64) -> (r:
        Result<Vec<MessagePair>, PromptizeError>)
        requires
            1 <= token_limit,
            1 <= chunkable_token_limit,
        ensures
            r is Err && r->Err_0 is MissingField <==> !self.all_set(),
            self.all_set() ==> spec_build_prompt_post(
                self.spec_serialized(),
                self.file_content->0@,
                self.system_prompt->0@,
                model@,
                token_limit,
                chunkable_token_limit,
                r,
            ),
    {
        let content = match self.build() {
            Ok(c) => c,
            Err(e) => {
                return Err(e);
            },
        };
        let record = content.to_record();
        let r = record.build_prompt(model, token_limit, chunkable_token_limit);
        proof {
            assert(record.spec_tail_fields() =~= seq![
                ("user_prompt"@, self.user_prompt->0@),
                ("filename"@, self.filename->0@),
                ("file_content"@, self.file_content->0@),
            ]);
            assert(record.spec_serialized() == self.spec_serialized());
        }
        r
    }
}

} // verus!
