use vstd::prelude::*;

verus! {

/// What can go wrong, each with a message for the user.
#[derive(Debug, Clone, PartialEq)]
pub enum Error {
    YamlError(String),
    ConfigRangeError(String),
    ConfigPathError(String),
    ConfigLabelError(String),
    ConfigProgramError(String),
    LaunchctlListError(String),
    DecompressionError(String),
    RenameError(String),
    CopyError(String),
    FailedToLoadTask(String),
    FailedToUnloadTask(String),
    TaskDoesNotExist(String),
    YamlNotFound(String),
    WrongLabelInYaml(String),
    FailedToReplaceRootAlias(String),
    NonUtfError(String),
    ErrorMoveYamlToMeta(String),
    FailedToUpdateMetaYaml(String),
    ErrorCreatingPlist(String),
    FailedToReadMetaFolder(String),
    FailedToFindYamlInMeta(String),
    ErrorCreatingFolder(String),
    NoFileToDelete(String),
    CommandExecutionError(String),
    FailedToChown(String),
    PathDoesNotExist(String),
    ZipFailure(String),
    FailedToRemoveFolder(String),
    IllegalDomainName(String),
}

/// The message an error carries.
pub open spec fn message(e: Error) -> Seq<char> {
    match e {
        Error::YamlError(m) => m@,
        Error::ConfigRangeError(m) => m@,
        Error::ConfigPathError(m) => m@,
        Error::ConfigLabelError(m) => m@,
        Error::ConfigProgramError(m) => m@,
        Error::LaunchctlListError(m) => m@,
        Error::DecompressionError(m) => m@,
        Error::RenameError(m) => m@,
        Error::CopyError(m) => m@,
        Error::FailedToLoadTask(m) => m@,
        Error::FailedToUnloadTask(m) => m@,
        Error::TaskDoesNotExist(m) => m@,
        Error::YamlNotFound(m) => m@,
        Error::WrongLabelInYaml(m) => m@,
        Error::FailedToReplaceRootAlias(m) => m@,
        Error::NonUtfError(m) => m@,
        Error::ErrorMoveYamlToMeta(m) => m@,
        Error::FailedToUpdateMetaYaml(m) => m@,
        Error::ErrorCreatingPlist(m) => m@,
        Error::FailedToReadMetaFolder(m) => m@,
        Error::FailedToFindYamlInMeta(m) => m@,
        Error::ErrorCreatingFolder(m) => m@,
        Error::NoFileToDelete(m) => m@,
        Error::CommandExecutionError(m) => m@,
        Error::FailedToChown(m) => m@,
        Error::PathDoesNotExist(m) => m@,
        Error::ZipFailure(m) => m@,
        Error::FailedToRemoveFolder(m) => m@,
        Error::IllegalDomainName(m) => m@,
    }
}

} // verus!
