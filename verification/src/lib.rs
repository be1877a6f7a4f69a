//! Asset Name Service scraping pipeline: resolves raw on-chain asset
//! identifiers (token contract addresses and native denominations) to
//! canonical `chain>symbol` names and assembles pool records that reference
//! only resolved names.

pub mod cache;
pub mod docparse;
pub mod laws;
pub mod model;
pub mod normalize;
pub mod registry;
pub mod scraper;
pub mod text;

pub use cache::encode_chain_asset_list;
pub use cache::parse_chain_asset_list;
pub use docparse::address_from_document;
pub use docparse::factory_address;
pub use model::ans_name;
pub use model::AssetIdentifier;
pub use model::ChainAssetEntry;
pub use model::ChainAssetList;
pub use model::DenomTrace;
pub use model::DenomUnit;
pub use model::PairType;
pub use model::PoolMetadata;
pub use model::PoolPair;
pub use model::PoolRecord;
pub use model::PoolType;
pub use model::UnresolvedReason;
pub use normalize::build_pools;
pub use normalize::build_tables;
pub use normalize::collect_unique_assets;
pub use normalize::map_pair_type;
pub use normalize::normalize;
pub use normalize::resolve_asset;
pub use normalize::NormalizeOutcome;
pub use normalize::PipelineError;
pub use normalize::ResolutionEnv;
pub use normalize::TokenMetadata;
pub use normalize::TokenNameSource;
pub use normalize::TokenQuery;
pub use normalize::TraceQuery;
pub use registry::ChainRegistry;
pub use scraper::AstroportScraper;
pub use scraper::DexId;
pub use text::to_ans_lowercase;
