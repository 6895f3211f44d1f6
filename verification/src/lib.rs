//! Decoders for two legacy binary container formats of a 3-D game client:
//! a block-compressed archive ("pack file") and a structured scene/asset
//! description ("world file") made of a header, an obfuscated string table
//! and a stream of typed binary records ("fragments").

use vstd::prelude::*;

mod cursor;
mod fragments;
mod pfs;
mod strings;
mod wld;

pub use cursor::ByteCursor;
pub use strings::decode_string;
pub use fragments::mesh::{MeshOp, WldMesh};
pub use fragments::model::{WldModel, WldModelAction};
pub use fragments::skeleton::{WldSkeletonDag, WldSkeletonFlags, WldSkeletonTrackSet};
pub use fragments::trackdef::{WldSkeletonPieceTrackDef, WldSkeletonPieceTrackFrameTransform, WldTrackDef};
pub use fragments::{BaseSettings, Settings, WldFragment};
pub use fragments::{WldDmSpriteRef, WldFragment23, WldFragment24, WldFragment44, WldFragment6};
pub use fragments::{WldMaterial, WldMaterialList, WldMeshRef, WldParticleCloud, WldParticleSprite};
pub use fragments::{WldParticleSpriteRef, WldSkeletonPieceTrack, WldSkeletonPieceTrackFlags};
pub use fragments::{WldSkeletonRef, WldSkeletonTrackSetRef, WldTexture, WldTextureBitmapInfo};
pub use fragments::{WldTextureBitmapInfoFlags, WldTextureBitmapInfoRef, WldTextureBitmapInfoRefFlags};
pub use fragments::{WldTextureBitmapFilename, WldTextureBitmapName, WldTextureFilename};
pub use fragments::{WldTextureList, WldTextureMaterial, WldTextureMaterialList};
pub use fragments::{WldTextureRef, WldTrack, WldTrackFlags};
pub use pfs::{PackFile, PackFileBlock, PackFileEntry, PackFileHeader};
pub use wld::{WldFile, WldHeader, WldNames, WldRawFragment};

verus! {

/// The error taxonomy shared by every decoder in the crate.
#[derive(Clone, Copy, Debug, PartialEq, Eq, Structural)]
pub enum EQFilesError {
    UnknownError,
    InvalidMagicNumber(u32),
    InvalidVersionNumber(u32),
    ErrorDecodingString,
}

/// Settings for decoders that need no shared context.
#[derive(Clone, Copy, Debug, PartialEq, Eq, Structural)]
pub struct EmptySettings;

impl core::default::Default for EmptySettings {
    fn default() -> (r: Self)
        ensures
            r == EmptySettings,
    {
        EmptySettings
    }
}

} // verus!
