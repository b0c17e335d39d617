//! Discovery of models placed in the models folder by hand.
use vstd::prelude::*;
use crate::text::{concat, ends_with, ends_with_seq, lowercase_seq, to_lowercase, views};

verus! {

/// Is a file, by its name, a model's weights (GGUF or ONNX, in any case)?
pub open spec fn is_weight_file(name: Seq<char>) -> bool {
    ends_with_seq(lowercase_seq(name), ".gguf"@) || ends_with_seq(lowercase_seq(name), ".onnx"@)
}

/// Finds and indexes the models in the models folder.
pub struct AutonomousDiscovery;

/// What discovery does with a folder under the models folder.
#[derive(Debug, Clone, Copy, PartialEq, Eq, Structural)]
pub enum FolderFinding {
    /// Its model manifest file was read: the folder is that model.
    Indexed,
    /// It holds weights: a manifest is made for it, with the file at this
    /// position of its listing as the primary weights.
    WeightsOnly(usize),
    /// Neither: the folders inside it are searched.
    Descend,
}

impl AutonomousDiscovery {
    /// The primary weight file of a folder, among the names of its files in
    /// listing order: the first GGUF or ONNX file.
    pub fn primary_weight_file(file_names: &Vec<String>) -> (r: Option<usize>)
        ensures
            match r {
                Some(i) => i < file_names@.len() && is_weight_file(file_names@[i as int]@) && forall|j: int|
                    0 <= j < i ==> !is_weight_file(#[trigger] views(file_names@)[j]),
                None => forall|j: int| 0 <= j < file_names@.len() ==> !is_weight_file(#[trigger] views(file_names@)[j]),
            },
    {
        let mut i: usize = 0;
        while i < file_names.len()
            invariant
                i <= file_names@.len(),
                forall|j: int| 0 <= j < i ==> !is_weight_file(#[trigger] views(file_names@)[j]),
            decreases file_names@.len() - i,
        {
            let lower = to_lowercase(file_names[i].as_str());
            proof {
                assert(lower@ == lowercase_seq(file_names@[i as int]@));
            }
            if ends_with(lower.as_str(), ".gguf") || ends_with(lower.as_str(), ".onnx") {
                return Some(i);
            }
            assert(views(file_names@)[i as int] == file_names@[i as int]@);
            i = i + 1;
        }
        None
    }

    /// What to do with a folder: a folder whose manifest was read is that
    /// model; else a folder with a name (`dir_name`) holding a weight file
    /// gets a manifest with its first weight file as primary; else its
    /// sub-folders are searched.
    pub fn classify_folder(manifest_read: bool, dir_name: Option<&str>, file_names: &Vec<String>) -> (r: FolderFinding)
        ensures
            manifest_read ==> r == FolderFinding::Indexed,
            !manifest_read ==> match r {
                FolderFinding::WeightsOnly(i) => dir_name is Some && i < file_names@.len() && is_weight_file(
                    file_names@[i as int]@,
                ) && forall|j: int| 0 <= j < i ==> !is_weight_file(#[trigger] views(file_names@)[j]),
                FolderFinding::Descend => dir_name is None || forall|j: int|
                    0 <= j < file_names@.len() ==> !is_weight_file(#[trigger] views(file_names@)[j]),
                FolderFinding::Indexed => false,
            },
    {
        if manifest_read {
            return FolderFinding::Indexed;
        }
        match Self::primary_weight_file(file_names) {
            Some(i) => match dir_name {
                Some(_) => FolderFinding::WeightsOnly(i),
                None => FolderFinding::Descend,
            },
            None => FolderFinding::Descend,
        }
    }

    /// The description of a model found without a manifest.
    pub fn discovered_description(category: &str, model_id: &str) -> (r: String)
        ensures
            r@ == "Discovered local "@ + category@ + " model '"@ + model_id@ + "'"@,
    {
        let a = concat("Discovered local ", category);
        let b = concat(a.as_str(), " model '");
        let c = concat(b.as_str(), model_id);
        concat(c.as_str(), "'")
    }
}

} // verus!
