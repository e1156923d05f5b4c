use vstd::prelude::*;

verus! {

/// The two static files the service serves.
pub enum Asset {
    /// The stylesheet.
    ThemeCss,
    /// The icon.
    Favicon,
}

/// The asset served under `name`, if any.
pub open spec fn asset_named(name: Seq<char>) -> Option<Asset> {
    if name == "theme.css"@ {
        Some(Asset::ThemeCss)
    } else if name == "favicon.svg"@ {
        Some(Asset::Favicon)
    } else {
        None
    }
}

/// Looks up the asset requested under `name`.
pub fn asset_for(name: &String) -> (r: Option<Asset>)
    ensures
        r == asset_named(name@),
{
    let css = "theme.css".to_owned();
    let icon = "favicon.svg".to_owned();
    if *name == css {
        Some(Asset::ThemeCss)
    } else if *name == icon {
        Some(Asset::Favicon)
    } else {
        None
    }
}

impl Asset {
    /// The content type sent with the asset.
    pub fn content_type(&self) -> (r: &'static str)
        ensures
            r@ == (match self {
                Asset::ThemeCss => "text/css"@,
                Asset::Favicon => "image/svg+xml"@,
            }),
    {
        match self {
            Asset::ThemeCss => "text/css",
            Asset::Favicon => "image/svg+xml",
        }
    }
}

} // verus!
