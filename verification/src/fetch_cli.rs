//! Resolution of the fetcher's command-line input into a validated target.
use crate::fetch_models::{
    extract_mbid, is_valid_uuid, mbid_core, parse_url, url_target, uuid_shaped, EntityType,
    FetchTarget, TargetKind,
};
use vstd::prelude::*;

verus! {

/// The options of the fetcher's command line that choose what to fetch.
#[derive(Debug, Clone)]
pub struct CliInput {
    pub url: Option<String>,
    pub release_id: Option<String>,
    pub release_group_id: Option<String>,
    pub target: Option<TargetKind>,
}

/// Why the command-line input names no fetchable target.
#[derive(Debug, Clone)]
pub enum ResolveError {
    /// `--url` is not a recognised MusicBrainz URL.
    InvalidUrl,
    /// `--release-id` holds no identifier.
    InvalidReleaseMbid,
    /// `--release-group-id` holds no identifier.
    InvalidReleaseGroupMbid,
    /// None of the three inputs was given.
    MissingInput,
    /// The identifier is not a UUID; it is carried along.
    NotUuid(String),
    /// A release was named with a target other than `release`.
    TargetInvalidForRelease(TargetKind),
    /// A release group was named with the target `release`.
    ReleaseTargetForReleaseGroup,
}

/// The entity named by the input, the first given of `url`, `release_id` and
/// `release_group_id` deciding.
pub open spec fn entity_of(cli: CliInput) -> Result<(Seq<char>, EntityType), ResolveError> {
    match cli.url {
        Some(u) => match url_target(u@) {
            Some(found) => Ok(found),
            None => Err(ResolveError::InvalidUrl),
        },
        None => match cli.release_id {
            Some(x) => if mbid_core(x@).len() > 0 {
                Ok((mbid_core(x@), EntityType::Release))
            } else {
                Err(ResolveError::InvalidReleaseMbid)
            },
            None => match cli.release_group_id {
                Some(x) => if mbid_core(x@).len() > 0 {
                    Ok((mbid_core(x@), EntityType::ReleaseGroup))
                } else {
                    Err(ResolveError::InvalidReleaseGroupMbid)
                },
                None => Err(ResolveError::MissingInput),
            },
        },
    }
}

/// The kind of fetch an entity and an optional requested target lead to.
pub open spec fn kind_for(entity: EntityType, target: Option<TargetKind>) -> Result<
    TargetKind,
    ResolveError,
> {
    match entity {
        EntityType::Release => match target {
            None => Ok(TargetKind::Release),
            Some(TargetKind::Release) => Ok(TargetKind::Release),
            Some(other) => Err(ResolveError::TargetInvalidForRelease(other)),
        },
        EntityType::ReleaseGroup => match target {
            None => Ok(TargetKind::ReleaseGroup),
            Some(TargetKind::ReleaseGroup) => Ok(TargetKind::ReleaseGroup),
            Some(TargetKind::AllReleases) => Ok(TargetKind::AllReleases),
            Some(TargetKind::Release) => Err(ResolveError::ReleaseTargetForReleaseGroup),
        },
    }
}

/// Finds the entity and identifier that the input names.
pub fn resolve_entity(cli: &CliInput) -> (r: Result<(String, EntityType), ResolveError>)
    ensures
        match r {
            Ok((id, kind)) => entity_of(*cli) == Ok::<(Seq<char>, EntityType), ResolveError>(
                (id@, kind),
            ),
            Err(e) => entity_of(*cli) == Err::<(Seq<char>, EntityType), ResolveError>(e),
        },
{
    if let Some(url_str) = &cli.url {
        return match parse_url(url_str.as_str()) {
            Some(found) => Ok(found),
            None => Err(ResolveError::InvalidUrl),
        };
    }
    if let Some(rel_id) = &cli.release_id {
        return match extract_mbid(rel_id.as_str()) {
            Some(id) => Ok((id, EntityType::Release)),
            None => Err(ResolveError::InvalidReleaseMbid),
        };
    }
    if let Some(rg_id) = &cli.release_group_id {
        return match extract_mbid(rg_id.as_str()) {
            Some(id) => Ok((id, EntityType::ReleaseGroup)),
            None => Err(ResolveError::InvalidReleaseGroupMbid),
        };
    }
    Err(ResolveError::MissingInput)
}

/// The fetch kind for an entity and an optional requested target.
pub fn kind_for_target(entity: EntityType, target: Option<TargetKind>) -> (r: Result<
    TargetKind,
    ResolveError,
>)
    ensures
        r == kind_for(entity, target),
{
    match entity {
        EntityType::Release => match target {
            None => Ok(TargetKind::Release),
            Some(TargetKind::Release) => Ok(TargetKind::Release),
            Some(other) => Err(ResolveError::TargetInvalidForRelease(other)),
        },
        EntityType::ReleaseGroup => match target {
            None => Ok(TargetKind::ReleaseGroup),
            Some(TargetKind::ReleaseGroup) => Ok(TargetKind::ReleaseGroup),
            Some(TargetKind::AllReleases) => Ok(TargetKind::AllReleases),
            Some(TargetKind::Release) => Err(ResolveError::ReleaseTargetForReleaseGroup),
        },
    }
}

/// Turns the command-line input into a validated fetch target: the identifier
/// must be a UUID and the requested target must suit the entity.
pub fn resolve_target(cli: &CliInput) -> (r: Result<FetchTarget, ResolveError>)
    ensures
        match entity_of(*cli) {
            Err(e) => r == Err::<FetchTarget, ResolveError>(e),
            Ok((id, entity)) => if !uuid_shaped(id) {
                r matches Err(ResolveError::NotUuid(m)) && m@ == id
            } else {
                match kind_for(entity, cli.target) {
                    Ok(kind) => r matches Ok(t) && t.mbid@ == id && t.kind == kind,
                    Err(e) => r == Err::<FetchTarget, ResolveError>(e),
                }
            },
        },
{
    let (mbid, entity) = resolve_entity(cli)?;
    if !is_valid_uuid(mbid.as_str()) {
        return Err(ResolveError::NotUuid(mbid));
    }
    let kind = kind_for_target(entity, cli.target)?;
    Ok(FetchTarget { mbid, kind })
}

} // verus!
